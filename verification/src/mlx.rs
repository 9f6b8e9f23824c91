//! The runtime of an Apple host. It runs jobs of the host's own making only: a
//! matrix-multiplication loop, or a server for a published model. The tenant names
//! one of them in place of an image and gives parameters, never code.

use vstd::prelude::*;

use crate::db::opt_str;
use crate::model::RentalKind;
use crate::runtime::{
    first_of, lemma_first_of, next_port, no_port, no_port_text, port_taken, prefixed, running_views,
    RentalSpec, RunningRental, RunningRentalView, Started, StartedView,
};
use crate::text::{
    all_digits, behind_sign, chars_of, contains, decimal, decimal_text, digits, has_infix,
    has_prefix, lemma_digits_value_nonnegative, parse_int, read_int, same_text, strip_prefix,
    text_of,
};

verus! {

/// A job that the host is ready to run.
#[derive(Debug, Clone, PartialEq, Eq)]
pub enum MlxTask {
    /// A loop of half-precision matrix products of size `n`: `mlx:gemm[:N]`.
    Gemm { n: u32 },
    /// Text generation by a model, served on the port: `mlx:generate:<model>`.
    Generate { model: String },
}

/// What [`MlxTask`] holds, with its texts as character sequences.
#[verifier::ext_equal]
pub enum MlxTaskView {
    Gemm { n: u32 },
    Generate { model: Seq<char> },
}

impl View for MlxTask {
    type V = MlxTaskView;

    open spec fn view(&self) -> MlxTaskView {
        match self {
            MlxTask::Gemm { n } => MlxTaskView::Gemm { n: *n },
            MlxTask::Generate { model } => MlxTaskView::Generate { model: model@ },
        }
    }
}

/// A text as a string literal of Rust would show it, with quotes and escapes.
pub uninterp spec fn debug_of(text: Seq<char>) -> Seq<char>;

/// The `Debug` form of `str` is a function of the text. How it escapes each
/// character is left unsaid.
#[verifier::external_body]
fn debug_text(text: &str) -> (r: String)
    ensures
        r@ == debug_of(text@),
{
    format!("{:?}", text)
}

/// A character that a model id may hold.
pub open spec fn id_char(c: char) -> bool {
    ||| 'a' <= c <= 'z'
    ||| 'A' <= c <= 'Z'
    ||| '0' <= c <= '9'
    ||| c == '-' || c == '_' || c == '.' || c == '/'
}

/// True when the only slash of `s` is at `k`, with something on either side.
pub open spec fn two_parts(s: Seq<char>, k: int) -> bool {
    &&& 0 < k < s.len() - 1
    &&& s[k] == '/'
    &&& forall|j: int| 0 <= j < s.len() && j != k ==> #[trigger] s[j] != '/'
}

/// A model id of the form `org/name`, with plain characters and no way up the
/// directory tree.
pub open spec fn model_id(s: Seq<char>) -> bool {
    &&& !has_infix(s, ".."@)
    &&& exists|k: int| #[trigger] two_parts(s, k)
    &&& forall|j: int| 0 <= j < s.len() ==> id_char(#[trigger] s[j])
}

/// Checks a model id. Such an id is safe as an argument of a program.
pub fn valid_model_id(s: &str) -> (r: bool)
    ensures
        r == model_id(s@),
{
    if contains(s, "..") {
        return false;
    }
    let chars = chars_of(s);
    let n: usize = chars.len();
    let mut slashes: usize = 0;
    let mut at: usize = 0;
    let mut i: usize = 0;
    while i < n
        invariant
            chars@ == s@,
            i <= n,
            n == chars@.len(),
            slashes <= i,
            slashes == 0 ==> forall|j: int| 0 <= j < i ==> #[trigger] s@[j] != '/',
            slashes == 1 ==> at < i && s@[at as int] == '/' && forall|j: int|
                0 <= j < i && j != at ==> #[trigger] s@[j] != '/',
            slashes >= 2 ==> !(exists|k: int| #[trigger] two_parts(s@, k)),
            forall|j: int| 0 <= j < i ==> id_char(#[trigger] s@[j]),
        decreases n - i,
    {
        let c: char = chars[i];
        let plain: bool = ('a' <= c && c <= 'z') || ('A' <= c && c <= 'Z') || ('0' <= c && c
            <= '9') || c == '-' || c == '_' || c == '.' || c == '/';
        if !plain {
            proof {
                assert(!id_char(s@[i as int]));
            }
            return false;
        }
        if c == '/' {
            proof {
                if slashes == 1 {
                    assert forall|k: int| !#[trigger] two_parts(s@, k) by {
                        if two_parts(s@, k) {
                            assert(s@[at as int] == '/');
                            assert(s@[i as int] == '/');
                        }
                    }
                }
            }
            slashes = slashes + 1;
            at = i;
        }
        i += 1;
    }
    if slashes != 1 {
        proof {
            if slashes == 0 {
                assert forall|k: int| !#[trigger] two_parts(s@, k) by {}
            }
        }
        return false;
    }
    proof {
        assert forall|k: int| #[trigger] two_parts(s@, k) implies k == at by {
            assert(s@[at as int] == '/');
        }
        if 0 < at < n - 1 {
            assert(two_parts(s@, at as int));
        }
    }
    0 < at && at < n - 1
}

/// The job that an image names, or why it names none.
pub open spec fn task_of(image: Seq<char>) -> Result<MlxTaskView, Seq<char>> {
    if !has_prefix(image, "mlx:"@) {
        Err(
            "this host runs MLX jobs only — image must be 'mlx:gemm[:N]' or 'mlx:generate:<model>' (got "@
                + debug_of(image) + ")"@,
        )
    } else {
        let rest = image.skip("mlx:"@.len() as int);
        match first_of(rest, ':') {
            Some(i) => named_task(image, rest.take(i), Some(rest.skip(i + 1))),
            None => named_task(image, rest, None),
        }
    }
}

/// The job with a given name and argument.
pub open spec fn named_task(image: Seq<char>, task: Seq<char>, arg: Option<Seq<char>>) -> Result<
    MlxTaskView,
    Seq<char>,
> {
    if task == "gemm"@ || task == "selftest"@ {
        match gemm_size(arg) {
            None => Err("invalid GEMM size in "@ + debug_of(image)),
            Some(n) => if 256 <= n <= 16384 {
                Ok(MlxTaskView::Gemm { n: n as u32 })
            } else {
                Err("GEMM size out of range: "@ + digits(n as nat))
            },
        }
    } else if task == "generate"@ {
        match arg {
            None => Err("missing model: use 'mlx:generate:<hf-model-id>'"@),
            Some(model) => if model_id(model) {
                Ok(MlxTaskView::Generate { model })
            } else {
                Err(
                    "invalid model id "@ + debug_of(model)
                        + "; expected 'org/name' (e.g. mlx-community/…)"@,
                )
            },
        }
    } else {
        Err("unknown MLX task "@ + debug_of(task) + "; supported: gemm, generate"@)
    }
}

/// The size that a matrix product is asked for: 2048 unless one is given, which
/// must be a 32-bit number.
pub open spec fn gemm_size(arg: Option<Seq<char>>) -> Option<int> {
    match arg {
        None => Some(2048),
        Some(a) => match read_int(a, false) {
            Some(n) => if n <= u32::MAX {
                Some(n)
            } else {
                None
            },
            None => None,
        },
    }
}

/// What became of reading an image.
pub open spec fn task_result(r: Result<MlxTask, String>) -> Result<MlxTaskView, Seq<char>> {
    match r {
        Ok(t) => Ok(t@),
        Err(e) => Err(e@),
    }
}

fn joined3(a: &str, b: &str, c: &str) -> (r: String)
    ensures
        r@ == a@ + b@ + c@,
{
    let mut s = a.to_owned();
    s.push_str(b);
    s.push_str(c);
    s
}

fn parse_named(image: &str, task: &str, arg: Option<&str>) -> (r: Result<MlxTask, String>)
    ensures
        task_result(r) == named_task(image@, task@, opt_str(arg)),
{
    if same_text(task, "gemm") || same_text(task, "selftest") {
        let size: Option<i64> = match arg {
            None => Some(2048),
            Some(a) => {
                proof {
                    lemma_unsigned_is_not_negative(a@);
                }
                parse_int(a, false, 0, u32::MAX as i64)
            },
        };
        match size {
            None => Err(prefixed("invalid GEMM size in ", debug_text(image).as_str())),
            Some(n) => if 256 <= n && n <= 16384 {
                Ok(MlxTask::Gemm { n: n as u32 })
            } else {
                Err(prefixed("GEMM size out of range: ", decimal_text(n).as_str()))
            },
        }
    } else if same_text(task, "generate") {
        match arg {
            None => Err("missing model: use 'mlx:generate:<hf-model-id>'".to_owned()),
            Some(model) => if valid_model_id(model) {
                Ok(MlxTask::Generate { model: model.to_owned() })
            } else {
                Err(
                    joined3(
                        "invalid model id ",
                        debug_text(model).as_str(),
                        "; expected 'org/name' (e.g. mlx-community/…)",
                    ),
                )
            },
        }
    } else {
        Err(
            joined3(
                "unknown MLX task ",
                debug_text(task).as_str(),
                "; supported: gemm, generate",
            ),
        )
    }
}

/// A number without a sign is not negative.
proof fn lemma_unsigned_is_not_negative(s: Seq<char>)
    ensures
        read_int(s, false) matches Some(n) ==> n >= 0,
{
    let body = behind_sign(s, false);
    if all_digits(body) {
        lemma_digits_value_nonnegative(body);
    }
}

/// Reads a rental's image as a job of this host. Anything else is refused.
pub fn parse_task(image: &str) -> (r: Result<MlxTask, String>)
    ensures
        task_result(r) == task_of(image@),
{
    let rest = match strip_prefix(image, "mlx:") {
        Some(rest) => rest,
        None => {
            return Err(
                joined3(
                    "this host runs MLX jobs only — image must be 'mlx:gemm[:N]' or 'mlx:generate:<model>' (got ",
                    debug_text(image).as_str(),
                    ")",
                ),
            );
        },
    };
    let chars = chars_of(rest.as_str());
    let mut i: usize = 0;
    while i < chars.len()
        invariant
            chars@ == rest@,
            i <= chars@.len(),
            has_prefix(image@, "mlx:"@),
            rest@ == image@.skip("mlx:"@.len() as int),
            forall|j: int| 0 <= j < i ==> #[trigger] rest@[j] != ':',
        decreases chars@.len() - i,
    {
        if chars[i] == ':' {
            proof {
                lemma_first_of(rest@, ':');
            }
            let task = text_of(&chars, 0, i);
            let arg = text_of(&chars, i + 1, chars.len());
            proof {
                assert(task@ =~= rest@.take(i as int));
                assert(arg@ =~= rest@.skip(i + 1));
            }
            return parse_named(image, task.as_str(), Some(arg.as_str()));
        }
        i += 1;
    }
    proof {
        lemma_first_of(rest@, ':');
    }
    parse_named(image, rest.as_str(), None)
}

/// A running job and the port it serves on.
#[derive(Debug, Clone, Copy, PartialEq, Eq, Structural)]
pub struct Job {
    pub rental_id: i64,
    pub port: i32,
}

/// The program that a job is run by, and what the tenant is told of it.
#[derive(Debug, Clone, PartialEq, Eq)]
pub struct Launch {
    pub program: String,
    pub args: Vec<String>,
    pub container_id: String,
    pub port: i32,
    pub kind: RentalKind,
}

/// What [`Launch`] holds, with its texts as character sequences.
#[verifier::ext_equal]
pub struct LaunchView {
    pub program: Seq<char>,
    pub args: Seq<Seq<char>>,
    pub container_id: Seq<char>,
    pub port: i32,
    pub kind: RentalKind,
}

impl View for Launch {
    type V = LaunchView;

    open spec fn view(&self) -> LaunchView {
        LaunchView {
            program: self.program@,
            args: self.args@.map_values(|s: String| s@),
            container_id: self.container_id@,
            port: self.port,
            kind: self.kind,
        }
    }
}

/// The jobs of an Apple host, which run as processes of a Python: a worker script
/// for matrix products, a server module for text generation.
#[derive(Debug, Clone, PartialEq, Eq)]
pub struct MlxRuntime {
    pub python: String,
    pub script_path: String,
    pub mlx_available: bool,
    pub mlx_lm_available: bool,
    pub port_start: i32,
    pub port_end: i32,
    pub jobs: Vec<Job>,
}

/// The arguments of the program that runs a job.
pub open spec fn task_args(task: MlxTaskView, script: Seq<char>, port: i32) -> Seq<Seq<char>> {
    match task {
        MlxTaskView::Gemm { n } => seq![script, digits(n as nat), decimal(port as int)],
        MlxTaskView::Generate { model } => seq![
            "-m"@,
            "mlx_lm.server"@,
            "--model"@,
            model,
            "--host"@,
            "0.0.0.0"@,
            "--port"@,
            decimal(port as int),
        ],
    }
}

/// How a tenant reaches a job.
pub open spec fn task_kind(task: MlxTaskView) -> RentalKind {
    match task {
        MlxTaskView::Gemm { n } => RentalKind::HttpStatus,
        MlxTaskView::Generate { model } => RentalKind::HttpOpenai,
    }
}

/// The name of a job.
pub open spec fn job_name(rental_id: i64) -> Seq<char> {
    "mlx-job-"@ + decimal(rental_id as int)
}

/// True when some job serves on the port.
pub open spec fn job_holds(jobs: Seq<Job>, port: i32) -> bool {
    exists|i: int| 0 <= i < jobs.len() && (#[trigger] jobs[i]).port == port
}

/// The jobs but for those of one rental.
pub open spec fn without(jobs: Seq<Job>, rental_id: i64) -> Seq<Job> {
    jobs.filter(|j: Job| j.rental_id != rental_id)
}

/// What a host tells of a job.
pub open spec fn job_view(j: Job) -> RunningRentalView {
    RunningRentalView {
        rental_id: j.rental_id,
        container_id: job_name(j.rental_id),
        ssh_port: j.port,
    }
}

/// Why a host cannot run a job, if it cannot.
pub open spec fn task_refusal(h: MlxRuntime, task: MlxTaskView) -> Option<Seq<char>> {
    match task {
        MlxTaskView::Gemm { n } => if h.mlx_available {
            None
        } else {
            Some(
                "MLX unavailable: `import mlx.core` failed for "@ + h.python@
                    + " (pip install mlx)"@,
            )
        },
        MlxTaskView::Generate { model } => if h.mlx_lm_available {
            None
        } else {
            Some(
                "mlx-lm unavailable: `import mlx_lm` failed for "@ + h.python@
                    + " (pip install mlx-lm)"@,
            )
        },
    }
}

/// The launch of a job on a port.
pub open spec fn launch_of(h: MlxRuntime, rental_id: i64, task: MlxTaskView, port: i32) -> LaunchView {
    LaunchView {
        program: h.python@,
        args: task_args(task, h.script_path@, port),
        container_id: job_name(rental_id),
        port,
        kind: task_kind(task),
    }
}

fn name_of_job(rental_id: i64) -> (r: String)
    ensures
        r@ == job_name(rental_id),
{
    prefixed("mlx-job-", decimal_text(rental_id).as_str())
}

/// The arguments of the program that runs a job. The tenant's input reaches it as
/// checked arguments only.
pub fn build_command(task: &MlxTask, script: &str, port: i32) -> (r: Vec<String>)
    ensures
        r@.map_values(|s: String| s@) == task_args(task@, script@, port),
{
    match task {
        MlxTask::Gemm { n } => {
            let args: Vec<String> = vec![
                script.to_owned(),
                decimal_text(*n as i64),
                decimal_text(port as i64),
            ];
            proof {
                assert(args@.map_values(|s: String| s@) =~= task_args(task@, script@, port));
            }
            args
        },
        MlxTask::Generate { model } => {
            let args: Vec<String> = vec![
                "-m".to_owned(),
                "mlx_lm.server".to_owned(),
                "--model".to_owned(),
                model.clone(),
                "--host".to_owned(),
                "0.0.0.0".to_owned(),
                "--port".to_owned(),
                decimal_text(port as i64),
            ];
            proof {
                assert(args@.map_values(|s: String| s@) =~= task_args(task@, script@, port));
            }
            args
        },
    }
}

impl MlxRuntime {
    /// The host's jobs as running workloads.
    fn running(&self) -> (r: Vec<RunningRental>)
        ensures
            running_views(r@) == self.jobs@.map_values(|j: Job| job_view(j)),
    {
        let mut out: Vec<RunningRental> = Vec::new();
        let mut k: usize = 0;
        while k < self.jobs.len()
            invariant
                k <= self.jobs@.len(),
                out@.len() == k,
                forall|i: int| 0 <= i < k ==> (#[trigger] out@[i])@ == job_view(self.jobs@[i]),
            decreases self.jobs@.len() - k,
        {
            let job: Job = self.jobs[k];
            out.push(
                RunningRental {
                    rental_id: job.rental_id,
                    container_id: name_of_job(job.rental_id),
                    ssh_port: job.port,
                },
            );
            k += 1;
        }
        proof {
            assert(running_views(out@) =~= self.jobs@.map_values(|j: Job| job_view(j)));
        }
        out
    }

    /// Plans the job of a rental on the lowest free port of the host's range. Once
    /// the program runs, [`Self::launched`] puts the job on the host's list.
    pub fn start_rental(&self, spec: &RentalSpec) -> (r: Result<Launch, String>)
        ensures
            match task_of(spec.image@) {
                Err(e) => r matches Err(x) && x@ == e,
                Ok(task) => match task_refusal(*self, task) {
                    Some(e) => r matches Err(x) && x@ == e,
                    None => match r {
                        Ok(l) => {
                            &&& self.port_start <= l.port <= self.port_end
                            &&& !job_holds(self.jobs@, l.port)
                            &&& forall|q: i32|
                                self.port_start <= q < l.port ==> #[trigger] job_holds(self.jobs@, q)
                            &&& l@ == launch_of(*self, spec.rental_id, task, l.port)
                        },
                        Err(e) => e@ == no_port_text("port"@, self.port_start, self.port_end)
                            && forall|q: i32|
                            self.port_start <= q <= self.port_end ==> #[trigger] job_holds(
                                self.jobs@,
                                q,
                            ),
                    },
                },
            },
    {
        let task: MlxTask = match parse_task(spec.image.as_str()) {
            Ok(t) => t,
            Err(e) => {
                return Err(e);
            },
        };
        let kind: RentalKind = match &task {
            MlxTask::Gemm { n: _ } => {
                if !self.mlx_available {
                    return Err(
                        joined3(
                            "MLX unavailable: `import mlx.core` failed for ",
                            self.python.as_str(),
                            " (pip install mlx)",
                        ),
                    );
                }
                RentalKind::HttpStatus
            },
            MlxTask::Generate { model: _ } => {
                if !self.mlx_lm_available {
                    return Err(
                        joined3(
                            "mlx-lm unavailable: `import mlx_lm` failed for ",
                            self.python.as_str(),
                            " (pip install mlx-lm)",
                        ),
                    );
                }
                RentalKind::HttpOpenai
            },
        };
        let running = self.running();
        proof {
            let views = running_views(running@);
            let shown = self.jobs@.map_values(|j: Job| job_view(j));
            assert(views == shown);
            assert(running@.len() == views.len() && shown.len() == self.jobs@.len());
            assert forall|i: int| 0 <= i < views.len() implies (
            #[trigger] running@[i]).ssh_port == self.jobs@[i].port by {
                assert(views[i] == running@[i]@);
                assert(shown[i] == job_view(self.jobs@[i]));
            }
            assert forall|q: i32| #[trigger] port_taken(running@, q) == job_holds(self.jobs@, q) by {
                if port_taken(running@, q) {
                    let i = choose|i: int|
                        0 <= i < running@.len() && (#[trigger] running@[i]).ssh_port == q;
                    assert(self.jobs@[i].port == q);
                }
                if job_holds(self.jobs@, q) {
                    let i = choose|i: int| 0 <= i < self.jobs@.len() && (#[trigger] self.jobs@[i]).port
                        == q;
                    assert(running@[i].ssh_port == q);
                }
            }
        }
        let port: i32 = match next_port(self.port_start, self.port_end, &running) {
            Some(p) => p,
            None => {
                proof {
                    assert forall|q: i32| self.port_start <= q <= self.port_end implies
                        #[trigger] job_holds(self.jobs@, q) by {
                        assert(port_taken(running@, q));
                    }
                }
                return Err(no_port("port", self.port_start, self.port_end));
            },
        };
        proof {
            assert(!port_taken(running@, port));
            assert forall|q: i32| self.port_start <= q < port implies #[trigger] job_holds(
                self.jobs@,
                q,
            ) by {
                assert(port_taken(running@, q));
            }
        }
        let launch = Launch {
            program: self.python.clone(),
            args: build_command(&task, self.script_path.as_str(), port),
            container_id: name_of_job(spec.rental_id),
            port,
            kind,
        };
        proof {
            assert(launch@ =~= launch_of(*self, spec.rental_id, task@, port));
        }
        Ok(launch)
    }

    /// Puts a job that was launched on the host's list, in place of an earlier one
    /// of the same rental.
    pub fn launched(&mut self, rental_id: i64, launch: &Launch) -> (r: Started)
        ensures
            final(self).jobs@ == without(old(self).jobs@, rental_id).push(
                Job { rental_id, port: launch.port },
            ),
            same_host(*old(self), *final(self)),
            r@ == (StartedView {
                container_id: launch.container_id@,
                ssh_port: launch.port,
                kind: launch.kind,
            }),
    {
        self.stop_rental(rental_id);
        self.jobs.push(Job { rental_id, port: launch.port });
        Started {
            container_id: launch.container_id.clone(),
            ssh_port: launch.port,
            kind: launch.kind,
        }
    }

    /// Takes the job of a rental off the list. Tells whether there was one, whose
    /// process is then to be ended.
    pub fn stop_rental(&mut self, rental_id: i64) -> (r: bool)
        ensures
            final(self).jobs@ == without(old(self).jobs@, rental_id),
            same_host(*old(self), *final(self)),
            r == (exists|i: int|
                0 <= i < old(self).jobs@.len() && (#[trigger] old(self).jobs@[i]).rental_id
                    == rental_id),
    {
        let ids: Vec<i64> = vec![rental_id];
        let before: usize = self.jobs.len();
        let kept = jobs_without(&self.jobs, &ids);
        proof {
            let p = |j: Job| j.rental_id != rental_id;
            let q = |j: Job| !ids@.contains(j.rental_id);
            assert(ids@[0] == rental_id);
            assert forall|j: Job| #[trigger] p(j) == q(j) by {}
            assert(p =~= q);
            lemma_filter_keeps_all(self.jobs@, p);
        }
        self.jobs = kept;
        self.jobs.len() < before
    }

    /// The jobs that still run. `exited` holds the rentals whose processes have
    /// ended; they are taken off the list.
    pub fn running_rentals(&mut self, exited: &Vec<i64>) -> (r: Vec<RunningRental>)
        ensures
            final(self).jobs@ == old(self).jobs@.filter(|j: Job| !exited@.contains(j.rental_id)),
            same_host(*old(self), *final(self)),
            running_views(r@) == final(self).jobs@.map_values(|j: Job| job_view(j)),
    {
        self.jobs = jobs_without(&self.jobs, exited);
        self.running()
    }
}

/// True when two states of a host differ at most in the jobs.
pub open spec fn same_host(a: MlxRuntime, b: MlxRuntime) -> bool {
    &&& a.python == b.python
    &&& a.script_path == b.script_path
    &&& a.mlx_available == b.mlx_available
    &&& a.mlx_lm_available == b.mlx_lm_available
    &&& a.port_start == b.port_start
    &&& a.port_end == b.port_end
}

fn lists_id(ids: &Vec<i64>, id: i64) -> (r: bool)
    ensures
        r == ids@.contains(id),
{
    let mut i: usize = 0;
    while i < ids.len()
        invariant
            i <= ids@.len(),
            forall|k: int| 0 <= k < i ==> #[trigger] ids@[k] != id,
        decreases ids@.len() - i,
    {
        if ids[i] == id {
            return true;
        }
        i += 1;
    }
    false
}

fn jobs_without(jobs: &Vec<Job>, ids: &Vec<i64>) -> (r: Vec<Job>)
    ensures
        r@ == jobs@.filter(|j: Job| !ids@.contains(j.rental_id)),
{
    let ghost p = |j: Job| !ids@.contains(j.rental_id);
    let mut out: Vec<Job> = Vec::new();
    let mut k: usize = 0;
    proof {
        reveal(Seq::filter);
        assert(out@ =~= jobs@.take(0).filter(p));
    }
    while k < jobs.len()
        invariant
            k <= jobs@.len(),
            p == (|j: Job| !ids@.contains(j.rental_id)),
            out@ == jobs@.take(k as int).filter(p),
        decreases jobs@.len() - k,
    {
        proof {
            reveal(Seq::filter);
            assert(jobs@.take(k + 1).drop_last() =~= jobs@.take(k as int));
        }
        if !lists_id(ids, jobs[k].rental_id) {
            out.push(jobs[k]);
        }
        k += 1;
    }
    proof {
        assert(jobs@.take(k as int) =~= jobs@);
    }
    out
}

/// A filter keeps the length just where it keeps every item.
proof fn lemma_filter_keeps_all(s: Seq<Job>, p: spec_fn(Job) -> bool)
    ensures
        s.filter(p).len() <= s.len(),
        s.filter(p).len() == s.len() <==> forall|i: int| 0 <= i < s.len() ==> p(#[trigger] s[i]),
    decreases s.len(),
{
    reveal(Seq::filter);
    if s.len() > 0 {
        let d = s.drop_last();
        lemma_filter_keeps_all(d, p);
        assert forall|i: int| 0 <= i < d.len() implies d[i] == #[trigger] s[i] by {}
        if s.filter(p).len() == s.len() {
            assert forall|i: int| 0 <= i < s.len() implies p(#[trigger] s[i]) by {
                if i < d.len() {
                    assert(p(d[i]));
                }
            }
        }
        if forall|i: int| 0 <= i < s.len() ==> p(#[trigger] s[i]) {
            assert forall|i: int| 0 <= i < d.len() implies p(#[trigger] d[i]) by {
                assert(p(s[i]));
            }
            assert(p(s[s.len() - 1]));
        }
    }
}

} // verus!
