use portctl::actions::container::{
    container_header_lines, container_path_exec, container_rows_exec, container_details_lines, containers_json_path,
    exec_create_body, exec_id, exec_start_body, exec_start_path, logs_path_exec, prune_summary as container_prune_summary,
    stats_io_lines, stats_summary,
};
use portctl::actions::endpoint::{
    all_endpoint_refs, endpoint_details_lines, endpoint_id, endpoint_list_lines, endpoint_name_for, fitting_endpoint_refs,
    EndpointRef, LookupError,
};
use portctl::actions::image::{image_details_lines, image_list_lines, in_use_ids_exec, pull_request, split_reference_exec};
use portctl::actions::network::{create_body as network_create_body, network_details_lines, network_id_exec, network_list_lines};
use portctl::actions::stack::{
    choose_editor, compose_text, edit_body, edit_request, external_stacks, file_deploy_body, file_deploy_path, git_deploy_body,
    git_deploy_path, redeploy_body, redeploy_request, removal_request, stack_details_lines, stack_env, stack_list_lines,
    StackError,
};
use portctl::actions::system::{endpoint_heading, failure_line, prune_path_exec, PruneKind, PruneTotals};
use portctl::actions::volume::{create_body as volume_create_body, volume_details_lines, volume_list_lines, volume_path_exec, volume_prune_path};
use portctl::json::Json;

fn s(t: &str) -> Json {
    Json::Str(t.to_string())
}

fn n(v: u64) -> Json {
    Json::Number(Some(v))
}

fn obj(members: Vec<(&str, Json)>) -> Json {
    Json::Object(members.into_iter().map(|(k, v)| (k.to_string(), v)).collect())
}

fn arr(items: Vec<Json>) -> Json {
    Json::Array(items)
}

fn text_at<'a>(j: &'a Json, key: &str) -> Option<&'a str> {
    match j.get(key) {
        Some(Json::Str(t)) => Some(t.as_str()),
        _ => None,
    }
}

fn keys(j: &Json) -> Vec<String> {
    match j {
        Json::Object(m) => m.iter().map(|(k, _)| k.clone()).collect(),
        _ => vec![],
    }
}

// ── endpoints ────────────────────────────────────────────────────────────────

fn endpoints() -> Json {
    arr(vec![
        obj(vec![("Id", n(1)), ("Name", s("local")), ("Type", n(1)), ("URL", s("unix:///var/run/docker.sock"))]),
        obj(vec![("Id", n(4294967297)), ("Name", s("big")), ("Type", n(4))]),
        obj(vec![("Name", s("noid"))]),
        obj(vec![("Id", n(3)), ("Type", n(9))]),
    ])
}

#[test]
fn endpoint_id_by_name() {
    assert_eq!(endpoint_id(&endpoints(), "local"), Ok(1));
    assert_eq!(endpoint_id(&endpoints(), "missing"), Err(LookupError::NotFound));
    assert_eq!(endpoint_id(&endpoints(), "big"), Err(LookupError::NotFound));
    assert_eq!(endpoint_id(&endpoints(), "noid"), Err(LookupError::NotFound));
    assert_eq!(endpoint_id(&obj(vec![]), "local"), Err(LookupError::BadFormat));
}

#[test]
fn endpoint_list_formats_rows() {
    let lines = endpoint_list_lines(&endpoints()).unwrap();
    assert_eq!(lines.len(), 6);
    assert_eq!(lines[0], format!("{:<30} {:<15} {}", "NAME", "TYPE", "URL"));
    assert_eq!(lines[1], "-".repeat(64));
    assert_eq!(lines[2], format!("{:<30} {:<15} {}", "local", "Docker", "unix:///var/run/docker.sock"));
    assert_eq!(lines[3], format!("{:<30} {:<15} {}", "big", "Edge Agent", "(unknown)"));
    assert_eq!(lines[5], format!("{:<30} {:<15} {}", "(unknown)", "Unknown", "(unknown)"));
    assert_eq!(endpoint_list_lines(&arr(vec![])).unwrap(), vec!["No endpoints found.".to_string()]);
    assert_eq!(endpoint_list_lines(&s("x")).err(), Some(LookupError::BadFormat));
}

#[test]
fn endpoint_details_with_snapshot() {
    let ep = obj(vec![
        ("Name", s("local")),
        ("Type", n(5)),
        ("Status", n(2)),
        (
            "Snapshots",
            arr(vec![obj(vec![
                ("DockerVersion", s("24.0.7")),
                ("RunningContainerCount", n(3)),
                ("StoppedContainerCount", n(1)),
                ("TotalContainerCount", n(4)),
                ("ImageCount", n(10)),
                ("StackCount", n(2)),
            ])]),
        ),
    ]);
    let lines = endpoint_details_lines(7, &ep);
    assert_eq!(
        lines,
        vec![
            "ID:           7",
            "Name:         local",
            "Type:         Local",
            "URL:          (unknown)",
            "Status:       down",
            "Docker:       24.0.7",
            "Containers:   3 running / 1 stopped / 4 total",
            "Images:       10",
            "Volumes:      0",
            "Stacks:       2",
        ]
    );
    let bare = endpoint_details_lines(1, &obj(vec![("Status", n(1)), ("Snapshots", arr(vec![]))]));
    assert_eq!(bare.len(), 5);
    assert_eq!(bare[4], "Status:       up");
}

#[test]
fn endpoint_refs_truncate_or_skip_wide_ids() {
    let all = all_endpoint_refs(&endpoints());
    let all: Vec<(u32, String)> = all.into_iter().map(|e| (e.id, e.name)).collect();
    assert_eq!(all, vec![(1, "local".to_string()), (1, "big".to_string()), (3, "(unknown)".to_string())]);
    let fit = fitting_endpoint_refs(&endpoints());
    let fit: Vec<(u32, String)> = fit.into_iter().map(|e| (e.id, e.name)).collect();
    assert_eq!(fit, vec![(1, "local".to_string()), (3, String::new())]);
    assert_eq!(all_endpoint_refs(&s("no list")).len(), 0);
}

#[test]
fn endpoint_name_lookup() {
    let eps = vec![EndpointRef { id: 2, name: "two".to_string() }, EndpointRef { id: 2, name: "again".to_string() }];
    assert_eq!(endpoint_name_for(&eps, 2), "two");
    assert_eq!(endpoint_name_for(&eps, 3), "(unknown)");
}

// ── stacks ───────────────────────────────────────────────────────────────────

fn container(project: Option<&str>, state: &str) -> Json {
    let mut labels = vec![];
    if let Some(p) = project {
        labels.push(("com.docker.compose.project", s(p)));
    }
    obj(vec![("Labels", obj(labels)), ("State", s(state))])
}

#[test]
fn stack_external_projects_are_unique_unmanaged_and_tracked() {
    let containers = arr(vec![
        container(Some("web"), "exited"),
        container(Some("managed"), "running"),
        container(None, "running"),
        container(Some("db"), "exited"),
        container(Some("web"), "running"),
        container(Some("db"), "exited"),
    ]);
    let stacks = arr(vec![obj(vec![("Name", s("managed")), ("Id", n(1))])]);
    let ext = external_stacks(&containers, &stacks, "local");
    let got: Vec<(String, bool, String)> = ext.into_iter().map(|e| (e.name, e.active, e.endpoint)).collect();
    assert_eq!(
        got,
        vec![("web".to_string(), true, "local".to_string()), ("db".to_string(), false, "local".to_string())]
    );
    assert_eq!(external_stacks(&s("x"), &stacks, "local").len(), 0);
}

#[test]
fn stack_list_formats_managed_then_external() {
    let stacks = arr(vec![
        obj(vec![("Name", s("app")), ("Status", n(1)), ("Type", n(2)), ("EndpointId", n(2))]),
        obj(vec![("Name", s("other")), ("Status", n(2)), ("Type", n(1)), ("EndpointId", n(5))]),
    ]);
    let eps = vec![EndpointRef { id: 2, name: "prod".to_string() }];
    let ext = external_stacks(&arr(vec![container(Some("side"), "running")]), &stacks, "prod");
    let lines = stack_list_lines(&stacks, None, &eps, &ext);
    assert_eq!(lines[0], format!("{:<35} {:<12} {:<12} {}", "NAME", "STATUS", "TYPE", "ENDPOINT"));
    assert_eq!(lines[1], "-".repeat(76));
    assert_eq!(lines[2], format!("{:<35} {:<12} {:<12} {}", "app", "active", "Compose", "prod"));
    assert_eq!(lines[3], format!("{:<35} {:<12} {:<12} {}", "other", "inactive", "Swarm", "(unknown)"));
    assert_eq!(lines[4], format!("{:<35} {:<12} {:<12} {}", "side", "active", "External", "prod"));
    let only = stack_list_lines(&stacks, Some(5), &eps, &vec![]);
    assert_eq!(only.len(), 3);
    assert_eq!(only[2], format!("{:<35} {:<12} {:<12} {}", "other", "inactive", "Swarm", "(unknown)"));
    assert_eq!(stack_list_lines(&stacks, Some(9), &eps, &vec![]), vec!["No stacks found.".to_string()]);
}

#[test]
fn stack_details_lists_env() {
    let st = obj(vec![
        ("Name", s("app")),
        ("Status", n(1)),
        ("Type", n(3)),
        ("EndpointId", n(2)),
        ("CreatedBy", s("admin")),
        ("Env", arr(vec![obj(vec![("name", s("A")), ("value", s("1"))]), obj(vec![("name", s("B"))])])),
    ]);
    assert_eq!(
        stack_details_lines(4, &st),
        vec![
            "ID:          4",
            "Name:        app",
            "Status:      active",
            "Type:        Kubernetes",
            "Endpoint ID: 2",
            "Created by:  admin",
            "Updated by:  (unknown)",
            "Env:",
            "  A=1",
        ]
    );
}

#[test]
fn stack_requests_check_git_and_endpoint() {
    let git = obj(vec![("GitConfig", obj(vec![("URL", s("u"))])), ("EndpointId", n(3))]);
    let plain = obj(vec![("GitConfig", Json::Null), ("EndpointId", n(3))]);
    let no_ep = obj(vec![("GitConfig", obj(vec![]))]);
    assert_eq!(redeploy_request(&git, 9).unwrap(), "stacks/9/git/redeploy?endpointId=3");
    assert_eq!(redeploy_request(&plain, 9).err(), Some(StackError::NotFromGit));
    assert_eq!(redeploy_request(&no_ep, 9).err(), Some(StackError::NoEndpoint));
    assert_eq!(edit_request(&plain, 9).unwrap(), "stacks/9?endpointId=3");
    assert_eq!(edit_request(&git, 9).err(), Some(StackError::FromGit));
    assert_eq!(removal_request(&git, 9).unwrap(), "stacks/9?endpointId=3");
    assert_eq!(removal_request(&obj(vec![]), 9).err(), Some(StackError::NoEndpoint));
    let body = redeploy_body();
    assert_eq!(keys(&body), vec!["pullImage"]);
    assert!(matches!(body.get("pullImage"), Some(Json::Bool(true))));
}

#[test]
fn stack_edit_sends_nothing_when_unchanged() {
    let env = stack_env(obj(vec![("Env", arr(vec![obj(vec![("name", s("A")), ("value", s("1"))])]))]));
    assert!(matches!(&env, Json::Array(items) if items.len() == 1));
    assert!(edit_body("services: {}\n", "services: {}\n".to_string(), arr(vec![])).is_none());
    let body = edit_body("a", "b".to_string(), env).unwrap();
    assert_eq!(keys(&body), vec!["StackFileContent", "Env"]);
    assert_eq!(text_at(&body, "StackFileContent"), Some("b"));
    assert!(matches!(stack_env(obj(vec![])), Json::Array(items) if items.is_empty()));
    assert_eq!(compose_text(&obj(vec![("StackFileContent", s("x: 1"))])), "x: 1");
    assert_eq!(compose_text(&obj(vec![])), "");
}

#[test]
fn stack_deploy_requests() {
    assert_eq!(file_deploy_path(3), "stacks?type=2&method=string&endpointId=3");
    assert_eq!(git_deploy_path(3), "stacks?type=2&method=repository&endpointId=3");
    let f = file_deploy_body("app", "version: '3'".to_string());
    assert_eq!(keys(&f), vec!["Name", "StackFileContent"]);
    assert_eq!(text_at(&f, "StackFileContent"), Some("version: '3'"));
    let g = git_deploy_body("app", "https://g/r", "refs/heads/main", "docker-compose.yml", None);
    assert_eq!(keys(&g), vec!["Name", "RepositoryURL", "RepositoryReferenceName", "ComposeFile", "RepositoryAuthentication"]);
    assert!(matches!(g.get("RepositoryAuthentication"), Some(Json::Bool(false))));
    let g = git_deploy_body("app", "https://g/r", "main", "c.yml", Some(("me", "pw")));
    assert_eq!(keys(&g).len(), 7);
    assert_eq!(text_at(&g, "RepositoryUsername"), Some("me"));
    assert_eq!(text_at(&g, "RepositoryPassword"), Some("pw"));
    assert!(matches!(g.get("RepositoryAuthentication"), Some(Json::Bool(true))));
}

#[test]
fn stack_editor_choice() {
    assert_eq!(choose_editor(Some("code".to_string()), Some("nano".to_string())), "code");
    assert_eq!(choose_editor(None, Some("nano".to_string())), "nano");
    assert_eq!(choose_editor(None, None), "vi");
}

// ── system prune ─────────────────────────────────────────────────────────────

#[test]
fn system_prune_paths() {
    assert_eq!(prune_path_exec(PruneKind::Containers, 2), "endpoints/2/docker/containers/prune");
    assert_eq!(prune_path_exec(PruneKind::Images, 2), "endpoints/2/docker/images/prune");
    assert_eq!(
        prune_path_exec(PruneKind::Volumes, 2),
        "endpoints/2/docker/volumes/prune?filters=%7B%22all%22%3A%5B%22true%22%5D%7D"
    );
    assert_eq!(prune_path_exec(PruneKind::Networks, 2), "endpoints/2/docker/networks/prune");
}

#[test]
fn system_prune_totals_add_up() {
    let mut t = PruneTotals::new();
    let c = obj(vec![("ContainersDeleted", arr(vec![s("a"), s("b")])), ("SpaceReclaimed", n(1024 * 1024))]);
    assert!(t.can_record(PruneKind::Containers, &c));
    assert_eq!(t.record(PruneKind::Containers, &c), "  Containers: 2 removed");
    let net = obj(vec![("NetworksDeleted", arr(vec![s("n")])), ("SpaceReclaimed", n(5))]);
    assert_eq!(t.record(PruneKind::Networks, &net), "  Networks:   1 removed");
    let img = obj(vec![("SpaceReclaimed", n(1024 * 1024))]);
    assert_eq!(t.record(PruneKind::Images, &img), "  Images:     0 removed");
    assert_eq!(t.containers, 2);
    assert_eq!(t.networks, 1);
    assert_eq!(t.reclaimed, 2 * 1024 * 1024);
    assert_eq!(
        t.summary_lines(),
        vec![
            "".to_string(),
            "Total removed: 2 container(s), 0 image(s), 0 volume(s), 1 network(s)".to_string(),
            "Total reclaimed: 2.00 MB".to_string(),
        ]
    );
    let huge = obj(vec![("SpaceReclaimed", n(u64::MAX))]);
    assert!(!t.can_record(PruneKind::Volumes, &huge));
    assert!(t.can_record(PruneKind::Networks, &huge));
    assert_eq!(endpoint_heading("local"), "Pruning local...");
    assert_eq!(failure_line(PruneKind::Volumes, "HTTP 500"), "  Volumes:    failed (HTTP 500)");
}

// ── containers ───────────────────────────────────────────────────────────────

#[test]
fn container_rows_with_and_without_endpoint() {
    let data = arr(vec![obj(vec![
        ("Id", s("0123456789abcdef0123")),
        ("Names", arr(vec![s("/web")])),
        ("State", s("running")),
        ("Image", s("nginx:latest")),
    ])]);
    let rows = container_rows_exec(&data, None);
    assert_eq!(rows, vec![format!("{:<16} {:<35} {:<12} {}", "0123456789ab", "web", "running", "nginx:latest")]);
    let rows = container_rows_exec(&data, Some("prod"));
    assert_eq!(rows, vec![format!("{:<16} {:<25} {:<12} {:<12} {}", "0123456789ab", "web", "running", "prod", "nginx:latest")]);
    let bare = container_rows_exec(&arr(vec![obj(vec![])]), None);
    assert_eq!(bare, vec![format!("{:<16} {:<35} {:<12} {}", "", "(unknown)", "(unknown)", "(unknown)")]);
    assert_eq!(container_rows_exec(&s("x"), None).len(), 0);
    assert_eq!(container_header_lines(true)[0], format!("{:<16} {:<25} {:<12} {:<12} {}", "ID", "NAME", "STATE", "ENDPOINT", "IMAGE"));
    assert_eq!(container_header_lines(true)[1], "-".repeat(90));
    assert_eq!(container_header_lines(false)[0], format!("{:<16} {:<35} {:<12} {}", "ID", "NAME", "STATE", "IMAGE"));
    assert_eq!(container_header_lines(false)[1], "-".repeat(80));
}

#[test]
fn container_paths() {
    assert_eq!(containers_json_path(3), "endpoints/3/docker/containers/json?all=1");
    assert_eq!(container_path_exec(3, "abc", "/start"), "endpoints/3/docker/containers/abc/start");
    assert_eq!(
        logs_path_exec(3, "abc", 50, true, false),
        "endpoints/3/docker/containers/abc/logs?stdout=1&stderr=1&tail=50&timestamps=1&follow=0"
    );
    assert_eq!(exec_start_path(3, "e1"), "endpoints/3/docker/exec/e1/start");
}

#[test]
fn container_stats_figures() {
    let d = obj(vec![
        (
            "cpu_stats",
            obj(vec![("cpu_usage", obj(vec![("total_usage", n(300))])), ("system_cpu_usage", n(1000)), ("online_cpus", n(4))]),
        ),
        ("precpu_stats", obj(vec![("cpu_usage", obj(vec![("total_usage", n(500))])), ("system_cpu_usage", n(400))])),
        ("memory_stats", obj(vec![("usage", n(3000)), ("stats", obj(vec![("inactive_file", n(1000))])), ("limit", n(8000))])),
        ("networks", obj(vec![("eth0", obj(vec![("rx_bytes", n(1024)), ("tx_bytes", n(10))])), ("eth1", obj(vec![("rx_bytes", n(1024))]))])),
        (
            "blkio_stats",
            obj(vec![(
                "io_service_bytes_recursive",
                arr(vec![
                    obj(vec![("op", s("Read")), ("value", n(5))]),
                    obj(vec![("op", s("Write")), ("value", n(7))]),
                    obj(vec![("op", s("Read")), ("value", n(6))]),
                    obj(vec![("op", s("Total")), ("value", n(100))]),
                ]),
            )]),
        ),
    ]);
    let st = stats_summary(&d).unwrap();
    assert_eq!(st.cpu_delta, 0);
    assert_eq!(st.system_delta, 600);
    assert_eq!(st.online_cpus, 4);
    assert_eq!(st.mem_used, 2000);
    assert_eq!(st.mem_limit, 8000);
    assert_eq!((st.net_rx, st.net_tx), (2048, 10));
    assert_eq!((st.blk_read, st.blk_write), (11, 7));
    assert_eq!(stats_io_lines(&st), vec!["Net I/O: 2.00 KB rx / 10 B tx", "Blk I/O: 11 B read / 7 B write"]);
    let empty = stats_summary(&obj(vec![])).unwrap();
    assert_eq!(empty.online_cpus, 1);
    let wide = obj(vec![("networks", obj(vec![("a", obj(vec![("rx_bytes", n(u64::MAX))])), ("b", obj(vec![("rx_bytes", n(1))]))]))]);
    assert!(stats_summary(&wide).is_none());
}

#[test]
fn container_details_with_ports_and_env() {
    let d = obj(vec![
        ("Id", s("sha-0123456789abcdef")),
        ("Name", s("/web")),
        ("Config", obj(vec![("Image", s("nginx")), ("Env", arr(vec![s("A=1"), n(3), s("B=2")]))])),
        ("State", obj(vec![("Status", s("running")), ("StartedAt", s("2024-01-01"))])),
        (
            "NetworkSettings",
            obj(vec![(
                "Ports",
                obj(vec![
                    ("80/tcp", arr(vec![obj(vec![("HostIp", s("0.0.0.0"))]), obj(vec![("HostPort", s("8080"))])])),
                    ("443/tcp", Json::Null),
                    ("53/udp", arr(vec![obj(vec![("HostPort", s("5353"))])])),
                ]),
            )]),
        ),
    ]);
    assert_eq!(
        container_details_lines(&d),
        vec![
            "ID:       sha-01234567",
            "Name:     web",
            "Image:    nginx",
            "State:    running",
            "Created:  (unknown)",
            "Started:  2024-01-01",
            "Ports:    8080:80/tcp, 5353:53/udp",
            "Env:",
            "  A=1",
            "  B=2",
        ]
    );
}

#[test]
fn container_exec_bodies() {
    let body = exec_create_body(&vec!["sh".to_string(), "-c".to_string(), "ls".to_string()]);
    assert_eq!(keys(&body), vec!["AttachStdin", "AttachStdout", "AttachStderr", "Tty", "Cmd"]);
    match body.get("Cmd") {
        Some(Json::Array(items)) => {
            let cmd: Vec<&str> = items.iter().filter_map(|j| if let Json::Str(t) = j { Some(t.as_str()) } else { None }).collect();
            assert_eq!(cmd, vec!["sh", "-c", "ls"]);
        }
        _ => panic!("Cmd is no list"),
    }
    assert!(matches!(body.get("AttachStdout"), Some(Json::Bool(true))));
    assert!(matches!(body.get("AttachStdin"), Some(Json::Bool(false))));
    let start = exec_start_body();
    assert_eq!(keys(&start), vec!["Detach", "Tty"]);
    assert_eq!(exec_id(&obj(vec![("Id", s("e42"))])), Some("e42".to_string()));
    assert_eq!(exec_id(&obj(vec![("Id", n(4))])), None);
}

#[test]
fn container_prune_summary_line() {
    let d = obj(vec![("ContainersDeleted", arr(vec![s("a")])), ("SpaceReclaimed", n(2048))]);
    assert_eq!(container_prune_summary(&d), "Removed 1 container(s), reclaimed 2.00 KB.");
    assert_eq!(container_prune_summary(&obj(vec![])), "Removed 0 container(s), reclaimed 0 B.");
}

// ── images ───────────────────────────────────────────────────────────────────

#[test]
fn image_reference_split() {
    assert_eq!(split_reference_exec("nginx"), ("nginx".to_string(), "latest".to_string()));
    assert_eq!(split_reference_exec("nginx:1.25"), ("nginx".to_string(), "1.25".to_string()));
    assert_eq!(
        split_reference_exec("localhost:5000/app:2"),
        ("localhost:5000/app".to_string(), "2".to_string())
    );
    assert_eq!(
        split_reference_exec("localhost:5000/nginx"),
        ("localhost:5000/nginx".to_string(), "latest".to_string())
    );
    assert_eq!(split_reference_exec("app:"), ("app".to_string(), "".to_string()));
}

#[test]
fn image_pull_request_encodes() {
    let (path, line) = pull_request(4, "my repo/app:v 1");
    assert_eq!(path, "endpoints/4/docker/images/create?fromImage=my%20repo%2Fapp&tag=v%201");
    assert_eq!(line, "Pulling my repo/app:v 1... ");
    let (path, _) = pull_request(1, "localhost:5000/nginx");
    assert_eq!(path, "endpoints/1/docker/images/create?fromImage=localhost%3A5000%2Fnginx&tag=latest");
    let (path, _) = pull_request(4, "nginx");
    assert_eq!(path, "endpoints/4/docker/images/create?fromImage=nginx&tag=latest");
}

#[test]
fn image_list_marks_images_in_use() {
    let containers = arr(vec![obj(vec![("ImageID", s("sha256:aaaaaaaaaaaaaaaa"))]), obj(vec![])]);
    let in_use = in_use_ids_exec(&containers);
    assert_eq!(in_use, vec!["sha256:aaaaaaaaaaaaaaaa".to_string()]);
    let images = arr(vec![
        obj(vec![
            ("Id", s("sha256:aaaaaaaaaaaaaaaa")),
            ("RepoTags", arr(vec![s("app:1"), s("app:latest")])),
            ("Size", n(3 * 1024 * 1024)),
        ]),
        obj(vec![("Id", s("sha256:bbbbbbbbbbbbbbbb")), ("RepoTags", arr(vec![])), ("Size", n(2 * 1024 * 1024 * 1024))]),
    ]);
    let lines = image_list_lines(&images, &in_use);
    assert_eq!(lines[0], format!("{:<14} {:<40} {:<10} {}", "ID", "REPOSITORY:TAG", "SIZE", "IN USE"));
    assert_eq!(lines[1], "-".repeat(72));
    assert_eq!(lines[2], format!("{:<14} {:<40} {:<10} {}", "aaaaaaaaaaaa", "app:1", "3.00 MB", "yes"));
    assert_eq!(lines[3], format!("{:<14} {:<40}", "", "app:latest"));
    assert_eq!(lines[4], format!("{:<14} {:<40} {:<10} {}", "bbbbbbbbbbbb", "<none>:<none>", "2.00 GB", "no"));
    assert_eq!(lines.len(), 5);
    assert_eq!(image_list_lines(&arr(vec![]), &in_use), vec!["No images found.".to_string()]);
}

#[test]
fn image_details_lines_in_order() {
    let img = obj(vec![
        ("Id", s("sha256:0123456789abcdef")),
        ("RepoTags", arr(vec![s("a:1"), s("a:2")])),
        ("Os", s("linux")),
        ("Architecture", s("amd64")),
        ("Size", n(1024 * 1024)),
        ("RootFS", obj(vec![("Layers", arr(vec![s("l1"), s("l2")]))])),
        ("Config", obj(vec![("ExposedPorts", obj(vec![("80/tcp", obj(vec![])), ("443/tcp", obj(vec![]))]))])),
    ]);
    assert_eq!(
        image_details_lines(&img, &vec![]),
        vec![
            "ID:           0123456789ab",
            "Tags:         a:1, a:2",
            "Created:      (unknown)",
            "Architecture: linux/amd64",
            "Size:         1.00 MB",
            "In use:       no",
            "Layers:       2",
            "Exposed:      80/tcp, 443/tcp",
        ]
    );
}

// ── networks ─────────────────────────────────────────────────────────────────

#[test]
fn network_lookup_and_listing() {
    let nets = arr(vec![
        obj(vec![("Id", s("abcdef0123456789")), ("Name", s("bridge")), ("Driver", s("bridge")), ("Scope", s("local"))]),
        obj(vec![("Name", s("noid"))]),
    ]);
    assert_eq!(network_id_exec(&nets, "bridge"), Ok("abcdef0123456789".to_string()));
    assert_eq!(network_id_exec(&nets, "noid"), Err(LookupError::NotFound));
    assert_eq!(network_id_exec(&s("x"), "bridge"), Err(LookupError::BadFormat));
    let lines = network_list_lines(&nets).unwrap();
    assert_eq!(lines[0], format!("{:<16} {:<30} {:<12} {}", "ID", "NAME", "DRIVER", "SCOPE"));
    assert_eq!(lines[2], format!("{:<16} {:<30} {:<12} {}", "abcdef012345", "bridge", "bridge", "local"));
    assert_eq!(network_list_lines(&arr(vec![])).unwrap(), vec!["No networks found.".to_string()]);
}

#[test]
fn network_details_and_create_body() {
    let n1 = obj(vec![
        ("Id", s("abc")),
        ("Name", s("net")),
        ("EnableIPv6", Json::Bool(true)),
        ("IPAM", obj(vec![("Config", arr(vec![obj(vec![("Subnet", s("10.0.0.0/24")), ("Gateway", s("10.0.0.1"))])]))])),
        ("Containers", obj(vec![("c1", obj(vec![("Name", s("web")), ("IPv4Address", s("10.0.0.2/24"))])), ("c2", obj(vec![]))])),
    ]);
    assert_eq!(
        network_details_lines(&n1),
        vec![
            "ID:       abc",
            "Name:     net",
            "Driver:   (unknown)",
            "Scope:    (unknown)",
            "IPv6:     true",
            "Internal: false",
            "Subnet:   10.0.0.0/24",
            "Gateway:  10.0.0.1",
            "Containers:",
            "  web (10.0.0.2/24)",
            "  (unknown) ((none))",
        ]
    );
    let body = network_create_body("net", "overlay");
    assert_eq!(keys(&body), vec!["Name", "Driver", "CheckDuplicate"]);
    assert_eq!(text_at(&body, "Driver"), Some("overlay"));
    assert!(matches!(body.get("CheckDuplicate"), Some(Json::Bool(true))));
}

// ── volumes ──────────────────────────────────────────────────────────────────

#[test]
fn volume_listing_and_details() {
    let data = obj(vec![("Volumes", arr(vec![obj(vec![("Name", s("data")), ("Driver", s("local")), ("Mountpoint", s("/var/lib/x"))])]))]);
    let lines = volume_list_lines(&data);
    assert_eq!(lines[0], format!("{:<30} {:<12} {}", "NAME", "DRIVER", "MOUNTPOINT"));
    assert_eq!(lines[1], "-".repeat(80));
    assert_eq!(lines[2], format!("{:<30} {:<12} {}", "data", "local", "/var/lib/x"));
    assert_eq!(volume_list_lines(&obj(vec![("Volumes", Json::Null)])), vec!["No volumes found.".to_string()]);
    assert_eq!(volume_list_lines(&obj(vec![("Volumes", arr(vec![]))])), vec!["No volumes found.".to_string()]);
    let v = obj(vec![
        ("Name", s("data")),
        ("Labels", obj(vec![("a", s("1")), ("b", n(2))])),
        ("Options", obj(vec![])),
    ]);
    assert_eq!(
        volume_details_lines(&v),
        vec![
            "Name:       data",
            "Driver:     (unknown)",
            "Scope:      (unknown)",
            "Mountpoint: (unknown)",
            "Created:    (unknown)",
            "Labels:",
            "  a=1",
            "  b=",
        ]
    );
}

#[test]
fn volume_paths_encode_names() {
    assert_eq!(volume_path_exec(2, "my vol"), "endpoints/2/docker/volumes/my%20vol");
    assert_eq!(volume_prune_path(2), "endpoints/2/docker/volumes/prune?filters=%7B%22all%22%3A%5B%22true%22%5D%7D");
    let body = volume_create_body("v", "local");
    assert_eq!(keys(&body), vec!["Name", "Driver"]);
    assert_eq!(text_at(&body, "Name"), Some("v"));
}
