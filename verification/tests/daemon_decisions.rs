use flovenet::cli::share_role;
use flovenet::daemon::{
    asset_filename, content_type, job_response, local_run_manifest, offer_manifest, parse_roles, role_names,
    swarm_key_from_bytes, total_slots, JobOutcome,
};
use flovenet::resources::{NodeRole, Platform};

#[test]
fn roles_from_command_line() {
    assert_eq!(parse_roles(""), vec![NodeRole::Compute]);
    assert_eq!(parse_roles("compute,storage"), vec![NodeRole::Compute, NodeRole::Storage]);
    assert_eq!(parse_roles(" ai , social ,validation"), vec![NodeRole::Ai, NodeRole::Social, NodeRole::Validation]);
    assert_eq!(parse_roles("storage,,bogus"), vec![NodeRole::Storage, NodeRole::Compute, NodeRole::Compute]);
    assert_eq!(parse_roles("\tstorage\u{3000}"), vec![NodeRole::Storage]);
}

#[test]
fn role_names_in_order() {
    assert_eq!(role_names(&vec![NodeRole::Ai, NodeRole::Compute]), vec!["ai", "compute"]);
    assert_eq!(NodeRole::parse("validation"), Some(NodeRole::Validation));
    assert_eq!(NodeRole::parse("Compute"), None);
}

#[test]
fn share_role_defaults_to_compute() {
    assert_eq!(share_role(None), NodeRole::Compute);
    assert_eq!(share_role(Some("ai")), NodeRole::Ai);
    assert_eq!(share_role(Some("gpu")), NodeRole::Compute);
}

#[test]
fn dashboard_files() {
    assert_eq!(asset_filename(""), "index.html");
    assert_eq!(asset_filename("/"), "index.html");
    assert_eq!(asset_filename("app.js"), "app.js");
    assert_eq!(content_type("index.html"), "text/html; charset=utf-8");
    assert_eq!(content_type("style.min.css"), "text/css; charset=utf-8");
    assert_eq!(content_type("app.js"), "application/javascript; charset=utf-8");
    assert_eq!(content_type("logo.svg"), "image/svg+xml");
    assert_eq!(content_type("a.png"), "image/png");
    assert_eq!(content_type("favicon.ico"), "image/x-icon");
    assert_eq!(content_type("archive.tar.gz"), "application/octet-stream");
    assert_eq!(content_type("html"), "text/html; charset=utf-8");
    assert_eq!(content_type("README"), "application/octet-stream");
}

#[test]
fn slots_and_keys() {
    assert_eq!(total_slots(&vec![]), 1);
    assert_eq!(total_slots(&vec![2, 8, 4]), 8);
    assert_eq!(swarm_key_from_bytes(&vec![1; 31]), None);
    let data: Vec<u8> = (0..40).collect();
    assert_eq!(swarm_key_from_bytes(&data), Some((0..32).collect::<Vec<u8>>()));
}

#[test]
fn manifests() {
    let m = local_run_manifest("run", None);
    assert_eq!(m.image_cid, "run");
    assert_eq!(m.entrypoint, "run");
    assert_eq!(m.max_duration_secs, 60);
    assert_eq!(m.slots_required, 1);
    let m = local_run_manifest("_start", Some("feed_ranker".into()));
    assert_eq!(m.image_cid, "feed_ranker");
    let o = offer_manifest("cid9", 120, 3);
    assert_eq!(o.image_cid, "cid9");
    assert_eq!(o.entrypoint, "_start");
    assert!(o.args.is_empty());
    assert_eq!((o.max_duration_secs, o.slots_required), (120, 3));
}

#[test]
fn job_responses() {
    let r = job_response("j1".into(), JobOutcome::Exited(0));
    assert!(r.accepted);
    assert_eq!(r.result_cid.as_deref(), Some("exit:0"));
    assert!(r.reason.is_none());
    let r = job_response("j2".into(), JobOutcome::Exited(-3));
    assert_eq!(r.result_cid.as_deref(), Some("exit:-3"));
    let r = job_response("j3".into(), JobOutcome::Refused("insufficient slots".into()));
    assert!(!r.accepted);
    assert_eq!(r.reason.as_deref(), Some("insufficient slots"));
    assert!(r.result_cid.is_none());
    let r = job_response("j4".into(), JobOutcome::Failed("timeout: exceeded 5s".into()));
    assert!(!r.accepted);
    assert_eq!(r.job_id, "j4");
    assert_eq!(r.reason.as_deref(), Some("timeout: exceeded 5s"));
}

#[test]
fn platforms() {
    assert_eq!(Platform::for_linux(Some("android")), Platform::Android);
    assert_eq!(Platform::for_linux(Some("linux")), Platform::Linux);
    assert_eq!(Platform::for_linux(None), Platform::Linux);
    assert_eq!(Platform::Macos.as_str(), "macos");
}

#[test]
fn every_role_name_parses_back() {
    for r in [NodeRole::Compute, NodeRole::Storage, NodeRole::Validation, NodeRole::Ai, NodeRole::Social] {
        assert_eq!(NodeRole::parse(r.as_str()), Some(r));
    }
}

#[test]
fn role_list_round_trip() {
    let roles = vec![NodeRole::Storage, NodeRole::Ai, NodeRole::Compute, NodeRole::Storage, NodeRole::Social];
    let text = role_names(&roles).join(",");
    assert_eq!(text, "storage,ai,compute,storage,social");
    assert_eq!(parse_roles(&text), roles);
}
