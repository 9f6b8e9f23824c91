use vgpu_market::mlx::{build_command, parse_task, valid_model_id, Job, MlxRuntime, MlxTask};
use vgpu_market::model::RentalKind;
use vgpu_market::runtime::RentalSpec;

#[test]
fn rejects_non_mlx_images() {
    assert!(parse_task("nvidia/cuda:latest").is_err());
}

#[test]
fn parses_gemm_default_and_explicit_size() {
    assert_eq!(parse_task("mlx:gemm").unwrap(), MlxTask::Gemm { n: 2048 });
    assert_eq!(
        parse_task("mlx:gemm:4096").unwrap(),
        MlxTask::Gemm { n: 4096 }
    );
}

#[test]
fn rejects_out_of_range_size() {
    assert!(parse_task("mlx:gemm:1").is_err());
}

#[test]
fn parses_generate_model() {
    assert_eq!(
        parse_task("mlx:generate:mlx-community/Llama-3.2-1B-Instruct-4bit").unwrap(),
        MlxTask::Generate {
            model: "mlx-community/Llama-3.2-1B-Instruct-4bit".to_string()
        }
    );
}

#[test]
fn generate_requires_a_valid_model() {
    assert!(parse_task("mlx:generate").is_err()); // no model
    assert!(parse_task("mlx:generate:not-a-repo").is_err()); // no '/'
    assert!(parse_task("mlx:generate:../etc/passwd").is_err()); // traversal
    assert!(parse_task("mlx:generate:a/b/c").is_err()); // too many segments
}

#[test]
fn task_errors_say_what_is_wrong() {
    assert_eq!(
        parse_task("a\"b").unwrap_err(),
        "this host runs MLX jobs only — image must be 'mlx:gemm[:N]' or 'mlx:generate:<model>' (got \"a\\\"b\")"
    );
    assert_eq!(
        parse_task("mlx:gemm:x").unwrap_err(),
        "invalid GEMM size in \"mlx:gemm:x\""
    );
    assert_eq!(
        parse_task("mlx:gemm:4294967296").unwrap_err(),
        "invalid GEMM size in \"mlx:gemm:4294967296\""
    );
    assert_eq!(
        parse_task("mlx:gemm:16385").unwrap_err(),
        "GEMM size out of range: 16385"
    );
    assert_eq!(
        parse_task("mlx:generate").unwrap_err(),
        "missing model: use 'mlx:generate:<hf-model-id>'"
    );
    assert_eq!(
        parse_task("mlx:generate:x").unwrap_err(),
        "invalid model id \"x\"; expected 'org/name' (e.g. mlx-community/…)"
    );
    assert_eq!(
        parse_task("mlx:sort").unwrap_err(),
        "unknown MLX task \"sort\"; supported: gemm, generate"
    );
}

#[test]
fn sizes_are_read_as_numbers_are() {
    assert_eq!(parse_task("mlx:gemm:+256").unwrap(), MlxTask::Gemm { n: 256 });
    assert_eq!(parse_task("mlx:selftest:016384").unwrap(), MlxTask::Gemm { n: 16384 });
    assert!(parse_task("mlx:gemm:").is_err());
    assert!(parse_task("mlx:gemm:-256").is_err());
    assert!(parse_task("mlx:gemm:256:1").is_err());
}

#[test]
fn model_ids_are_plain() {
    assert!(valid_model_id("a/b"));
    assert!(valid_model_id("mlx-community/Qwen2.5_x"));
    assert!(!valid_model_id(""));
    assert!(!valid_model_id("/b"));
    assert!(!valid_model_id("a/"));
    assert!(!valid_model_id("a/b c"));
    assert!(!valid_model_id("a/b..c"));
    assert!(!valid_model_id("a/é"));
}

fn host() -> MlxRuntime {
    MlxRuntime {
        python: "python3".to_string(),
        script_path: "/tmp/worker.py".to_string(),
        mlx_available: true,
        mlx_lm_available: false,
        port_start: 40000,
        port_end: 40001,
        jobs: vec![],
    }
}

fn spec(id: i64, image: &str) -> RentalSpec {
    RentalSpec {
        rental_id: id,
        image: image.to_string(),
        ssh_pubkey: String::new(),
    }
}

#[test]
fn jobs_come_and_go() {
    let mut h = host();
    let l = h.start_rental(&spec(3, "mlx:gemm:512")).unwrap();
    assert_eq!(l.program, "python3");
    assert_eq!(l.args, vec!["/tmp/worker.py", "512", "40000"]);
    assert_eq!(l.container_id, "mlx-job-3");
    assert_eq!(l.kind, RentalKind::HttpStatus);
    let s = h.launched(3, &l);
    assert_eq!(s.ssh_port, 40000);
    let l2 = h.start_rental(&spec(4, "mlx:gemm")).unwrap();
    assert_eq!(l2.port, 40001);
    h.launched(4, &l2);
    assert_eq!(
        h.start_rental(&spec(5, "mlx:gemm")).unwrap_err(),
        "no free port in 40000..=40001"
    );
    let live = h.running_rentals(&vec![3]);
    assert_eq!(live.len(), 1);
    assert_eq!(live[0].rental_id, 4);
    assert_eq!(live[0].container_id, "mlx-job-4");
    assert_eq!(live[0].ssh_port, 40001);
    assert!(h.stop_rental(4));
    assert!(!h.stop_rental(4));
    assert_eq!(h.jobs, Vec::<Job>::new());
}

#[test]
fn a_job_of_the_same_rental_is_replaced() {
    let mut h = host();
    let l = h.start_rental(&spec(3, "mlx:gemm")).unwrap();
    h.launched(3, &l);
    let again = h.start_rental(&spec(3, "mlx:gemm")).unwrap();
    assert_eq!(again.port, 40001);
    h.launched(3, &again);
    assert_eq!(h.jobs, vec![Job { rental_id: 3, port: 40001 }]);
}

#[test]
fn missing_libraries_refuse_jobs() {
    let mut h = host();
    assert_eq!(
        h.start_rental(&spec(1, "mlx:generate:a/b")).unwrap_err(),
        "mlx-lm unavailable: `import mlx_lm` failed for python3 (pip install mlx-lm)"
    );
    h.mlx_available = false;
    assert_eq!(
        h.start_rental(&spec(1, "mlx:gemm")).unwrap_err(),
        "MLX unavailable: `import mlx.core` failed for python3 (pip install mlx)"
    );
}

#[test]
fn generation_is_served_by_the_server_module() {
    let task = MlxTask::Generate {
        model: "a/b".to_string(),
    };
    assert_eq!(
        build_command(&task, "unused", 40005),
        vec!["-m", "mlx_lm.server", "--model", "a/b", "--host", "0.0.0.0", "--port", "40005"]
    );
}
