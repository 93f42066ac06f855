use portctl::argparse::CliErrorKind;
use portctl::cli::build_cli;

#[test]
fn cli_builds_successfully() {
    let _ = build_cli();
}

#[test]
fn cli_requires_subcommand() {
    let result = build_cli().try_get_matches_from(&["portctl"]);
    assert!(result.is_err());
}


#[test]
fn cli_config_set_url_parses() {
    let m = build_cli()
        .try_get_matches_from(&["portctl", "config", "set-url", "https://example.com"])
        .unwrap();
    let (sub, sub_m) = m.subcommand().unwrap();
    assert_eq!(sub, "config");
    let (csub, csub_m) = sub_m.subcommand().unwrap();
    assert_eq!(csub, "set-url");
    assert_eq!(csub_m.get_one("url").unwrap(), "https://example.com");
}

#[test]
fn cli_config_set_token_parses() {
    let m = build_cli()
        .try_get_matches_from(&["portctl", "config", "set-token", "tok123"])
        .unwrap();
    let (_, sub_m) = m.subcommand().unwrap();
    let (csub, csub_m) = sub_m.subcommand().unwrap();
    assert_eq!(csub, "set-token");
    assert_eq!(csub_m.get_one("token").unwrap(), "tok123");
}

#[test]
fn cli_config_show_parses() {
    let m = build_cli()
        .try_get_matches_from(&["portctl", "config", "show"])
        .unwrap();
    let (_, sub_m) = m.subcommand().unwrap();
    let (csub, _) = sub_m.subcommand().unwrap();
    assert_eq!(csub, "show");
}

#[test]
fn cli_config_check_parses() {
    let m = build_cli()
        .try_get_matches_from(&["portctl", "config", "check"])
        .unwrap();
    let (_, sub_m) = m.subcommand().unwrap();
    let (csub, _) = sub_m.subcommand().unwrap();
    assert_eq!(csub, "check");
}

#[test]
fn cli_config_set_url_requires_arg() {
    let result = build_cli().try_get_matches_from(&["portctl", "config", "set-url"]);
    assert!(result.is_err());
}

#[test]
fn cli_config_set_token_requires_arg() {
    let result = build_cli().try_get_matches_from(&["portctl", "config", "set-token"]);
    assert!(result.is_err());
}


#[test]
fn cli_endpoint_ls_parses() {
    let m = build_cli()
        .try_get_matches_from(&["portctl", "endpoint", "ls"])
        .unwrap();
    let (sub, sub_m) = m.subcommand().unwrap();
    assert_eq!(sub, "endpoint");
    let (csub, _) = sub_m.subcommand().unwrap();
    assert_eq!(csub, "ls");
}

#[test]
fn cli_endpoint_inspect_parses() {
    let m = build_cli()
        .try_get_matches_from(&["portctl", "endpoint", "inspect", "my-endpoint"])
        .unwrap();
    let (_, sub_m) = m.subcommand().unwrap();
    let (csub, csub_m) = sub_m.subcommand().unwrap();
    assert_eq!(csub, "inspect");
    assert_eq!(csub_m.get_one("name").unwrap(), "my-endpoint");
}

#[test]
fn cli_endpoint_inspect_requires_name() {
    let result = build_cli().try_get_matches_from(&["portctl", "endpoint", "inspect"]);
    assert!(result.is_err());
}


#[test]
fn cli_stack_ls_parses() {
    let m = build_cli()
        .try_get_matches_from(&["portctl", "stack", "ls"])
        .unwrap();
    let (sub, sub_m) = m.subcommand().unwrap();
    assert_eq!(sub, "stack");
    let (csub, _) = sub_m.subcommand().unwrap();
    assert_eq!(csub, "ls");
}

#[test]
fn cli_stack_ls_optional_endpoint_filter() {
    let m = build_cli()
        .try_get_matches_from(&["portctl", "stack", "ls", "-e", "myenv"])
        .unwrap();
    let (_, sub_m) = m.subcommand().unwrap();
    let (_, csub_m) = sub_m.subcommand().unwrap();
    assert_eq!(csub_m.get_one("endpoint").unwrap(), "myenv");
}

#[test]
fn cli_stack_inspect_parses() {
    let m = build_cli()
        .try_get_matches_from(&["portctl", "stack", "inspect", "mystack"])
        .unwrap();
    let (_, sub_m) = m.subcommand().unwrap();
    let (csub, csub_m) = sub_m.subcommand().unwrap();
    assert_eq!(csub, "inspect");
    assert_eq!(csub_m.get_one("name").unwrap(), "mystack");
}

#[test]
fn cli_stack_stop_yes_flag() {
    let m = build_cli()
        .try_get_matches_from(&["portctl", "stack", "stop", "mystack", "-y"])
        .unwrap();
    let (_, sub_m) = m.subcommand().unwrap();
    let (_, csub_m) = sub_m.subcommand().unwrap();
    assert!(csub_m.get_flag("yes"));
}

#[test]
fn cli_stack_rm_yes_flag() {
    let m = build_cli()
        .try_get_matches_from(&["portctl", "stack", "rm", "mystack", "--yes"])
        .unwrap();
    let (_, sub_m) = m.subcommand().unwrap();
    let (_, csub_m) = sub_m.subcommand().unwrap();
    assert!(csub_m.get_flag("yes"));
}

#[test]
fn cli_stack_deploy_file_parses() {
    let m = build_cli()
        .try_get_matches_from(&["portctl", "stack", "deploy", "mystack", "-e", "ep", "-f", "./docker-compose.yml"])
        .unwrap();
    let (_, sub_m) = m.subcommand().unwrap();
    let (csub, csub_m) = sub_m.subcommand().unwrap();
    assert_eq!(csub, "deploy");
    assert_eq!(csub_m.get_one("name").unwrap(), "mystack");
    assert_eq!(csub_m.get_one("file").unwrap(), "./docker-compose.yml");
}

#[test]
fn cli_stack_deploy_git_defaults() {
    let m = build_cli()
        .try_get_matches_from(&["portctl", "stack", "deploy", "mystack", "-e", "ep",
                               "--git-url", "https://github.com/foo/bar"])
        .unwrap();
    let (_, sub_m) = m.subcommand().unwrap();
    let (_, csub_m) = sub_m.subcommand().unwrap();
    assert_eq!(csub_m.get_one("git-url").unwrap(), "https://github.com/foo/bar");
    assert_eq!(csub_m.get_one("git-ref").unwrap(), "refs/heads/main");
    assert_eq!(csub_m.get_one("compose-file").unwrap(), "docker-compose.yml");
}

#[test]
fn cli_stack_deploy_git_custom_ref() {
    let m = build_cli()
        .try_get_matches_from(&["portctl", "stack", "deploy", "mystack", "-e", "ep",
                               "--git-url", "https://github.com/foo/bar",
                               "--git-ref", "refs/heads/develop"])
        .unwrap();
    let (_, sub_m) = m.subcommand().unwrap();
    let (_, csub_m) = sub_m.subcommand().unwrap();
    assert_eq!(csub_m.get_one("git-ref").unwrap(), "refs/heads/develop");
}

#[test]
fn cli_stack_deploy_requires_source() {
    let result = build_cli()
        .try_get_matches_from(&["portctl", "stack", "deploy", "mystack", "-e", "ep"]);
    assert!(result.is_err());
}

#[test]
fn cli_stack_deploy_file_and_git_conflict() {
    let result = build_cli()
        .try_get_matches_from(&["portctl", "stack", "deploy", "mystack", "-e", "ep",
                               "-f", "./docker-compose.yml",
                               "--git-url", "https://github.com/foo/bar"]);
    assert!(result.is_err());
}

#[test]
fn cli_stack_deploy_git_credentials_require_password() {
    let result = build_cli()
        .try_get_matches_from(&["portctl", "stack", "deploy", "mystack", "-e", "ep",
                               "--git-url", "https://github.com/foo/bar",
                               "--git-username", "user"]);
    assert!(result.is_err());
}

#[test]
fn cli_stack_deploy_git_credentials_full() {
    let m = build_cli()
        .try_get_matches_from(&["portctl", "stack", "deploy", "mystack", "-e", "ep",
                               "--git-url", "https://github.com/foo/bar",
                               "--git-username", "user",
                               "--git-password", "pass"])
        .unwrap();
    let (_, sub_m) = m.subcommand().unwrap();
    let (_, csub_m) = sub_m.subcommand().unwrap();
    assert_eq!(csub_m.get_one("git-username").unwrap(), "user");
    assert_eq!(csub_m.get_one("git-password").unwrap(), "pass");
}


#[test]
fn cli_container_ls_parses() {
    let m = build_cli()
        .try_get_matches_from(&["portctl", "container", "ls"])
        .unwrap();
    let (sub, sub_m) = m.subcommand().unwrap();
    assert_eq!(sub, "container");
    let (csub, _) = sub_m.subcommand().unwrap();
    assert_eq!(csub, "ls");
}

#[test]
fn cli_container_logs_defaults() {
    let m = build_cli()
        .try_get_matches_from(&["portctl", "container", "logs", "-e", "ep", "abc123"])
        .unwrap();
    let (_, sub_m) = m.subcommand().unwrap();
    let (csub, csub_m) = sub_m.subcommand().unwrap();
    assert_eq!(csub, "logs");
    assert_eq!(csub_m.get_u32("tail"), Some(100));
    assert!(!csub_m.get_flag("timestamps"));
    assert!(!csub_m.get_flag("follow"));
}

#[test]
fn cli_container_logs_all_flags() {
    let m = build_cli()
        .try_get_matches_from(&["portctl", "container", "logs", "-e", "ep", "abc123",
                               "-t", "-f", "-n", "50"])
        .unwrap();
    let (_, sub_m) = m.subcommand().unwrap();
    let (_, csub_m) = sub_m.subcommand().unwrap();
    assert_eq!(csub_m.get_u32("tail"), Some(50));
    assert!(csub_m.get_flag("timestamps"));
    assert!(csub_m.get_flag("follow"));
}

#[test]
fn cli_container_kill_default_signal() {
    let m = build_cli()
        .try_get_matches_from(&["portctl", "container", "kill", "-e", "ep", "abc123"])
        .unwrap();
    let (_, sub_m) = m.subcommand().unwrap();
    let (csub, csub_m) = sub_m.subcommand().unwrap();
    assert_eq!(csub, "kill");
    assert_eq!(csub_m.get_one("signal").unwrap(), "SIGTERM");
}

#[test]
fn cli_container_kill_custom_signal() {
    let m = build_cli()
        .try_get_matches_from(&["portctl", "container", "kill", "-e", "ep", "abc123",
                               "-s", "SIGKILL"])
        .unwrap();
    let (_, sub_m) = m.subcommand().unwrap();
    let (_, csub_m) = sub_m.subcommand().unwrap();
    assert_eq!(csub_m.get_one("signal").unwrap(), "SIGKILL");
}

#[test]
fn cli_container_rename_parses() {
    let m = build_cli()
        .try_get_matches_from(&["portctl", "container", "rename", "-e", "ep", "oldname", "newname"])
        .unwrap();
    let (_, sub_m) = m.subcommand().unwrap();
    let (csub, csub_m) = sub_m.subcommand().unwrap();
    assert_eq!(csub, "rename");
    assert_eq!(csub_m.get_one("id").unwrap(), "oldname");
    assert_eq!(csub_m.get_one("new-name").unwrap(), "newname");
}

#[test]
fn cli_container_exec_parses_cmd() {
    let m = build_cli()
        .try_get_matches_from(&["portctl", "container", "exec", "-e", "ep",
                               "mycontainer", "--", "sh", "-c", "echo hello"])
        .unwrap();
    let (_, sub_m) = m.subcommand().unwrap();
    let (csub, csub_m) = sub_m.subcommand().unwrap();
    assert_eq!(csub, "exec");
    let cmd: Vec<&String> = csub_m.get_many("cmd").unwrap().iter().collect();
    assert_eq!(cmd, vec!["sh", "-c", "echo hello"]);
}

#[test]
fn cli_container_cp_container_to_host() {
    let m = build_cli()
        .try_get_matches_from(&["portctl", "container", "cp", "-e", "ep",
                               "mycontainer:/app/config.yml", "./"])
        .unwrap();
    let (_, sub_m) = m.subcommand().unwrap();
    let (csub, csub_m) = sub_m.subcommand().unwrap();
    assert_eq!(csub, "cp");
    assert_eq!(csub_m.get_one("src").unwrap(), "mycontainer:/app/config.yml");
    assert_eq!(csub_m.get_one("dest").unwrap(), "./");
}

#[test]
fn cli_container_cp_host_to_container() {
    let m = build_cli()
        .try_get_matches_from(&["portctl", "container", "cp", "-e", "ep",
                               "./config.yml", "mycontainer:/app/"])
        .unwrap();
    let (_, sub_m) = m.subcommand().unwrap();
    let (_, csub_m) = sub_m.subcommand().unwrap();
    assert_eq!(csub_m.get_one("src").unwrap(), "./config.yml");
    assert_eq!(csub_m.get_one("dest").unwrap(), "mycontainer:/app/");
}

#[test]
fn cli_container_prune_yes_flag() {
    let m = build_cli()
        .try_get_matches_from(&["portctl", "container", "prune", "-e", "ep", "-y"])
        .unwrap();
    let (_, sub_m) = m.subcommand().unwrap();
    let (_, csub_m) = sub_m.subcommand().unwrap();
    assert!(csub_m.get_flag("yes"));
}


#[test]
fn cli_image_ls_parses() {
    let m = build_cli()
        .try_get_matches_from(&["portctl", "image", "ls", "-e", "ep"])
        .unwrap();
    let (sub, sub_m) = m.subcommand().unwrap();
    assert_eq!(sub, "image");
    let (csub, _) = sub_m.subcommand().unwrap();
    assert_eq!(csub, "ls");
}

#[test]
fn cli_image_inspect_parses() {
    let m = build_cli()
        .try_get_matches_from(&["portctl", "image", "inspect", "-e", "ep", "nginx:latest"])
        .unwrap();
    let (_, sub_m) = m.subcommand().unwrap();
    let (csub, csub_m) = sub_m.subcommand().unwrap();
    assert_eq!(csub, "inspect");
    assert_eq!(csub_m.get_one("image").unwrap(), "nginx:latest");
}

#[test]
fn cli_image_rm_yes_flag() {
    let m = build_cli()
        .try_get_matches_from(&["portctl", "image", "rm", "-e", "ep", "nginx:latest", "-y"])
        .unwrap();
    let (_, sub_m) = m.subcommand().unwrap();
    let (_, csub_m) = sub_m.subcommand().unwrap();
    assert!(csub_m.get_flag("yes"));
}


#[test]
fn cli_volume_ls_parses() {
    let m = build_cli()
        .try_get_matches_from(&["portctl", "volume", "ls", "-e", "ep"])
        .unwrap();
    let (sub, sub_m) = m.subcommand().unwrap();
    assert_eq!(sub, "volume");
    let (csub, _) = sub_m.subcommand().unwrap();
    assert_eq!(csub, "ls");
}

#[test]
fn cli_volume_create_default_driver() {
    let m = build_cli()
        .try_get_matches_from(&["portctl", "volume", "create", "-e", "ep", "myvol"])
        .unwrap();
    let (_, sub_m) = m.subcommand().unwrap();
    let (csub, csub_m) = sub_m.subcommand().unwrap();
    assert_eq!(csub, "create");
    assert_eq!(csub_m.get_one("driver").unwrap(), "local");
}

#[test]
fn cli_volume_create_custom_driver() {
    let m = build_cli()
        .try_get_matches_from(&["portctl", "volume", "create", "-e", "ep", "myvol", "-d", "nfs"])
        .unwrap();
    let (_, sub_m) = m.subcommand().unwrap();
    let (_, csub_m) = sub_m.subcommand().unwrap();
    assert_eq!(csub_m.get_one("driver").unwrap(), "nfs");
}

#[test]
fn cli_volume_rm_yes_flag() {
    let m = build_cli()
        .try_get_matches_from(&["portctl", "volume", "rm", "-e", "ep", "myvol", "-y"])
        .unwrap();
    let (_, sub_m) = m.subcommand().unwrap();
    let (_, csub_m) = sub_m.subcommand().unwrap();
    assert!(csub_m.get_flag("yes"));
}


#[test]
fn cli_network_ls_parses() {
    let m = build_cli()
        .try_get_matches_from(&["portctl", "network", "ls", "-e", "ep"])
        .unwrap();
    let (sub, sub_m) = m.subcommand().unwrap();
    assert_eq!(sub, "network");
    let (csub, _) = sub_m.subcommand().unwrap();
    assert_eq!(csub, "ls");
}

#[test]
fn cli_network_create_default_driver() {
    let m = build_cli()
        .try_get_matches_from(&["portctl", "network", "create", "-e", "ep", "mynet"])
        .unwrap();
    let (_, sub_m) = m.subcommand().unwrap();
    let (csub, csub_m) = sub_m.subcommand().unwrap();
    assert_eq!(csub, "create");
    assert_eq!(csub_m.get_one("driver").unwrap(), "bridge");
}

#[test]
fn cli_network_create_custom_driver() {
    let m = build_cli()
        .try_get_matches_from(&["portctl", "network", "create", "-e", "ep", "mynet", "-d", "overlay"])
        .unwrap();
    let (_, sub_m) = m.subcommand().unwrap();
    let (_, csub_m) = sub_m.subcommand().unwrap();
    assert_eq!(csub_m.get_one("driver").unwrap(), "overlay");
}

#[test]
fn cli_network_rm_yes_flag() {
    let m = build_cli()
        .try_get_matches_from(&["portctl", "network", "rm", "-e", "ep", "mynet", "-y"])
        .unwrap();
    let (_, sub_m) = m.subcommand().unwrap();
    let (_, csub_m) = sub_m.subcommand().unwrap();
    assert!(csub_m.get_flag("yes"));
}


#[test]
fn cli_system_prune_parses() {
    let m = build_cli()
        .try_get_matches_from(&["portctl", "system", "prune"])
        .unwrap();
    let (sub, sub_m) = m.subcommand().unwrap();
    assert_eq!(sub, "system");
    let (csub, csub_m) = sub_m.subcommand().unwrap();
    assert_eq!(csub, "prune");
    assert!(csub_m.get_one("endpoint").is_none());
}

#[test]
fn cli_system_prune_with_endpoint() {
    let m = build_cli()
        .try_get_matches_from(&["portctl", "system", "prune", "-e", "myenv"])
        .unwrap();
    let (_, sub_m) = m.subcommand().unwrap();
    let (_, csub_m) = sub_m.subcommand().unwrap();
    assert_eq!(csub_m.get_one("endpoint").unwrap(), "myenv");
}

#[test]
fn cli_system_prune_yes_flag() {
    let m = build_cli()
        .try_get_matches_from(&["portctl", "system", "prune", "-y"])
        .unwrap();
    let (_, sub_m) = m.subcommand().unwrap();
    let (_, csub_m) = sub_m.subcommand().unwrap();
    assert!(csub_m.get_flag("yes"));
}


#[test]
fn cli_insecure_flag_parses() {
    let m = build_cli()
        .try_get_matches_from(&["portctl", "--insecure", "config", "show"])
        .unwrap();
    assert!(m.get_flag("insecure"));
}


#[test]
fn cli_stack_start_parses() {
    let m = build_cli()
        .try_get_matches_from(&["portctl", "stack", "start", "mystack"])
        .unwrap();
    let (_, sub_m) = m.subcommand().unwrap();
    let (csub, csub_m) = sub_m.subcommand().unwrap();
    assert_eq!(csub, "start");
    assert_eq!(csub_m.get_one("name").unwrap(), "mystack");
}

#[test]
fn cli_stack_start_requires_name() {
    let result = build_cli().try_get_matches_from(&["portctl", "stack", "start"]);
    assert!(result.is_err());
}

#[test]
fn cli_stack_update_parses() {
    let m = build_cli()
        .try_get_matches_from(&["portctl", "stack", "update", "mystack"])
        .unwrap();
    let (_, sub_m) = m.subcommand().unwrap();
    let (csub, csub_m) = sub_m.subcommand().unwrap();
    assert_eq!(csub, "update");
    assert_eq!(csub_m.get_one("name").unwrap(), "mystack");
}

#[test]
fn cli_stack_compose_parses() {
    let m = build_cli()
        .try_get_matches_from(&["portctl", "stack", "compose", "mystack"])
        .unwrap();
    let (_, sub_m) = m.subcommand().unwrap();
    let (csub, csub_m) = sub_m.subcommand().unwrap();
    assert_eq!(csub, "compose");
    assert_eq!(csub_m.get_one("name").unwrap(), "mystack");
}

#[test]
fn cli_stack_edit_parses() {
    let m = build_cli()
        .try_get_matches_from(&["portctl", "stack", "edit", "mystack"])
        .unwrap();
    let (_, sub_m) = m.subcommand().unwrap();
    let (csub, csub_m) = sub_m.subcommand().unwrap();
    assert_eq!(csub, "edit");
    assert_eq!(csub_m.get_one("name").unwrap(), "mystack");
}

#[test]
fn cli_stack_inspect_requires_name() {
    let result = build_cli().try_get_matches_from(&["portctl", "stack", "inspect"]);
    assert!(result.is_err());
}

#[test]
fn cli_stack_stop_requires_name() {
    let result = build_cli().try_get_matches_from(&["portctl", "stack", "stop"]);
    assert!(result.is_err());
}

#[test]
fn cli_stack_rm_requires_name() {
    let result = build_cli().try_get_matches_from(&["portctl", "stack", "rm"]);
    assert!(result.is_err());
}

#[test]
fn cli_stack_deploy_env_file_with_file_source() {
    let m = build_cli()
        .try_get_matches_from(&["portctl", "stack", "deploy", "mystack", "-e", "ep",
                               "-f", "./docker-compose.yml", "--env-file", ".env"])
        .unwrap();
    let (_, sub_m) = m.subcommand().unwrap();
    let (_, csub_m) = sub_m.subcommand().unwrap();
    assert_eq!(csub_m.get_one("env-file").unwrap(), ".env");
}

#[test]
fn cli_stack_deploy_env_file_with_git_source() {
    let m = build_cli()
        .try_get_matches_from(&["portctl", "stack", "deploy", "mystack", "-e", "ep",
                               "--git-url", "https://github.com/foo/bar",
                               "--env-file", "prod.env"])
        .unwrap();
    let (_, sub_m) = m.subcommand().unwrap();
    let (_, csub_m) = sub_m.subcommand().unwrap();
    assert_eq!(csub_m.get_one("env-file").unwrap(), "prod.env");
}

#[test]
fn cli_stack_deploy_custom_compose_file() {
    let m = build_cli()
        .try_get_matches_from(&["portctl", "stack", "deploy", "mystack", "-e", "ep",
                               "--git-url", "https://github.com/foo/bar",
                               "--compose-file", "infra/docker-compose.yml"])
        .unwrap();
    let (_, sub_m) = m.subcommand().unwrap();
    let (_, csub_m) = sub_m.subcommand().unwrap();
    assert_eq!(csub_m.get_one("compose-file").unwrap(), "infra/docker-compose.yml");
}


#[test]
fn cli_container_stats_parses() {
    let m = build_cli()
        .try_get_matches_from(&["portctl", "container", "stats", "-e", "ep", "abc123"])
        .unwrap();
    let (_, sub_m) = m.subcommand().unwrap();
    let (csub, csub_m) = sub_m.subcommand().unwrap();
    assert_eq!(csub, "stats");
    assert_eq!(csub_m.get_one("id").unwrap(), "abc123");
}

#[test]
fn cli_container_start_parses() {
    let m = build_cli()
        .try_get_matches_from(&["portctl", "container", "start", "-e", "ep", "abc123"])
        .unwrap();
    let (_, sub_m) = m.subcommand().unwrap();
    let (csub, csub_m) = sub_m.subcommand().unwrap();
    assert_eq!(csub, "start");
    assert_eq!(csub_m.get_one("id").unwrap(), "abc123");
}

#[test]
fn cli_container_stop_parses() {
    let m = build_cli()
        .try_get_matches_from(&["portctl", "container", "stop", "-e", "ep", "abc123"])
        .unwrap();
    let (_, sub_m) = m.subcommand().unwrap();
    let (csub, csub_m) = sub_m.subcommand().unwrap();
    assert_eq!(csub, "stop");
    assert_eq!(csub_m.get_one("id").unwrap(), "abc123");
}

#[test]
fn cli_container_stop_yes_flag() {
    let m = build_cli()
        .try_get_matches_from(&["portctl", "container", "stop", "-e", "ep", "abc123", "-y"])
        .unwrap();
    let (_, sub_m) = m.subcommand().unwrap();
    let (_, csub_m) = sub_m.subcommand().unwrap();
    assert!(csub_m.get_flag("yes"));
}

#[test]
fn cli_container_restart_parses() {
    let m = build_cli()
        .try_get_matches_from(&["portctl", "container", "restart", "-e", "ep", "abc123"])
        .unwrap();
    let (_, sub_m) = m.subcommand().unwrap();
    let (csub, csub_m) = sub_m.subcommand().unwrap();
    assert_eq!(csub, "restart");
    assert_eq!(csub_m.get_one("id").unwrap(), "abc123");
}

#[test]
fn cli_container_inspect_parses() {
    let m = build_cli()
        .try_get_matches_from(&["portctl", "container", "inspect", "-e", "ep", "abc123"])
        .unwrap();
    let (_, sub_m) = m.subcommand().unwrap();
    let (csub, csub_m) = sub_m.subcommand().unwrap();
    assert_eq!(csub, "inspect");
    assert_eq!(csub_m.get_one("id").unwrap(), "abc123");
}

#[test]
fn cli_container_rm_parses() {
    let m = build_cli()
        .try_get_matches_from(&["portctl", "container", "rm", "-e", "ep", "abc123"])
        .unwrap();
    let (_, sub_m) = m.subcommand().unwrap();
    let (csub, csub_m) = sub_m.subcommand().unwrap();
    assert_eq!(csub, "rm");
    assert_eq!(csub_m.get_one("id").unwrap(), "abc123");
}

#[test]
fn cli_container_rm_yes_flag() {
    let m = build_cli()
        .try_get_matches_from(&["portctl", "container", "rm", "-e", "ep", "abc123", "-y"])
        .unwrap();
    let (_, sub_m) = m.subcommand().unwrap();
    let (_, csub_m) = sub_m.subcommand().unwrap();
    assert!(csub_m.get_flag("yes"));
}

#[test]
fn cli_container_pause_parses() {
    let m = build_cli()
        .try_get_matches_from(&["portctl", "container", "pause", "-e", "ep", "abc123"])
        .unwrap();
    let (_, sub_m) = m.subcommand().unwrap();
    let (csub, csub_m) = sub_m.subcommand().unwrap();
    assert_eq!(csub, "pause");
    assert_eq!(csub_m.get_one("id").unwrap(), "abc123");
}

#[test]
fn cli_container_unpause_parses() {
    let m = build_cli()
        .try_get_matches_from(&["portctl", "container", "unpause", "-e", "ep", "abc123"])
        .unwrap();
    let (_, sub_m) = m.subcommand().unwrap();
    let (csub, csub_m) = sub_m.subcommand().unwrap();
    assert_eq!(csub, "unpause");
    assert_eq!(csub_m.get_one("id").unwrap(), "abc123");
}

#[test]
fn cli_container_top_parses() {
    let m = build_cli()
        .try_get_matches_from(&["portctl", "container", "top", "-e", "ep", "abc123"])
        .unwrap();
    let (_, sub_m) = m.subcommand().unwrap();
    let (csub, csub_m) = sub_m.subcommand().unwrap();
    assert_eq!(csub, "top");
    assert_eq!(csub_m.get_one("id").unwrap(), "abc123");
}

#[test]
fn cli_container_kill_yes_flag() {
    let m = build_cli()
        .try_get_matches_from(&["portctl", "container", "kill", "-e", "ep", "abc123", "-y"])
        .unwrap();
    let (_, sub_m) = m.subcommand().unwrap();
    let (_, csub_m) = sub_m.subcommand().unwrap();
    assert!(csub_m.get_flag("yes"));
}

#[test]
fn cli_container_exec_requires_cmd() {
    let result = build_cli()
        .try_get_matches_from(&["portctl", "container", "exec", "-e", "ep", "abc123"]);
    assert!(result.is_err());
}

#[test]
fn cli_container_ls_without_endpoint() {
    let m = build_cli()
        .try_get_matches_from(&["portctl", "container", "ls"])
        .unwrap();
    let (_, sub_m) = m.subcommand().unwrap();
    let (_, csub_m) = sub_m.subcommand().unwrap();
    assert!(csub_m.get_one("endpoint").is_none());
}


#[test]
fn cli_image_pull_parses() {
    let m = build_cli()
        .try_get_matches_from(&["portctl", "image", "pull", "-e", "ep", "nginx:latest"])
        .unwrap();
    let (_, sub_m) = m.subcommand().unwrap();
    let (csub, csub_m) = sub_m.subcommand().unwrap();
    assert_eq!(csub, "pull");
    assert_eq!(csub_m.get_one("image").unwrap(), "nginx:latest");
}

#[test]
fn cli_image_prune_parses() {
    let m = build_cli()
        .try_get_matches_from(&["portctl", "image", "prune", "-e", "ep"])
        .unwrap();
    let (_, sub_m) = m.subcommand().unwrap();
    let (csub, _) = sub_m.subcommand().unwrap();
    assert_eq!(csub, "prune");
}

#[test]
fn cli_image_prune_yes_flag() {
    let m = build_cli()
        .try_get_matches_from(&["portctl", "image", "prune", "-e", "ep", "-y"])
        .unwrap();
    let (_, sub_m) = m.subcommand().unwrap();
    let (_, csub_m) = sub_m.subcommand().unwrap();
    assert!(csub_m.get_flag("yes"));
}

#[test]
fn cli_image_rm_parses() {
    let m = build_cli()
        .try_get_matches_from(&["portctl", "image", "rm", "-e", "ep", "nginx:latest"])
        .unwrap();
    let (_, sub_m) = m.subcommand().unwrap();
    let (csub, csub_m) = sub_m.subcommand().unwrap();
    assert_eq!(csub, "rm");
    assert_eq!(csub_m.get_one("image").unwrap(), "nginx:latest");
}


#[test]
fn cli_volume_inspect_parses() {
    let m = build_cli()
        .try_get_matches_from(&["portctl", "volume", "inspect", "-e", "ep", "myvol"])
        .unwrap();
    let (_, sub_m) = m.subcommand().unwrap();
    let (csub, csub_m) = sub_m.subcommand().unwrap();
    assert_eq!(csub, "inspect");
    assert_eq!(csub_m.get_one("name").unwrap(), "myvol");
}

#[test]
fn cli_volume_rm_parses() {
    let m = build_cli()
        .try_get_matches_from(&["portctl", "volume", "rm", "-e", "ep", "myvol"])
        .unwrap();
    let (_, sub_m) = m.subcommand().unwrap();
    let (csub, csub_m) = sub_m.subcommand().unwrap();
    assert_eq!(csub, "rm");
    assert_eq!(csub_m.get_one("name").unwrap(), "myvol");
}

#[test]
fn cli_volume_prune_parses() {
    let m = build_cli()
        .try_get_matches_from(&["portctl", "volume", "prune", "-e", "ep"])
        .unwrap();
    let (_, sub_m) = m.subcommand().unwrap();
    let (csub, _) = sub_m.subcommand().unwrap();
    assert_eq!(csub, "prune");
}

#[test]
fn cli_volume_prune_yes_flag() {
    let m = build_cli()
        .try_get_matches_from(&["portctl", "volume", "prune", "-e", "ep", "-y"])
        .unwrap();
    let (_, sub_m) = m.subcommand().unwrap();
    let (_, csub_m) = sub_m.subcommand().unwrap();
    assert!(csub_m.get_flag("yes"));
}


#[test]
fn cli_network_inspect_parses() {
    let m = build_cli()
        .try_get_matches_from(&["portctl", "network", "inspect", "-e", "ep", "mynet"])
        .unwrap();
    let (_, sub_m) = m.subcommand().unwrap();
    let (csub, csub_m) = sub_m.subcommand().unwrap();
    assert_eq!(csub, "inspect");
    assert_eq!(csub_m.get_one("name").unwrap(), "mynet");
}

#[test]
fn cli_network_rm_parses() {
    let m = build_cli()
        .try_get_matches_from(&["portctl", "network", "rm", "-e", "ep", "mynet"])
        .unwrap();
    let (_, sub_m) = m.subcommand().unwrap();
    let (csub, csub_m) = sub_m.subcommand().unwrap();
    assert_eq!(csub, "rm");
    assert_eq!(csub_m.get_one("name").unwrap(), "mynet");
}

#[test]
fn cli_network_prune_parses() {
    let m = build_cli()
        .try_get_matches_from(&["portctl", "network", "prune", "-e", "ep"])
        .unwrap();
    let (_, sub_m) = m.subcommand().unwrap();
    let (csub, _) = sub_m.subcommand().unwrap();
    assert_eq!(csub, "prune");
}

#[test]
fn cli_network_prune_yes_flag() {
    let m = build_cli()
        .try_get_matches_from(&["portctl", "network", "prune", "-e", "ep", "-y"])
        .unwrap();
    let (_, sub_m) = m.subcommand().unwrap();
    let (_, csub_m) = sub_m.subcommand().unwrap();
    assert!(csub_m.get_flag("yes"));
}



#[test]
fn cli_help_describes_the_command_reached() {
    let err = build_cli().try_get_matches_from(&["portctl", "volume", "--help"]).unwrap_err();
    assert_eq!(err.kind, portctl::argparse::CliErrorKind::DisplayHelp);
    let lines: Vec<&str> = err.detail.lines().collect();
    assert_eq!(lines[0], "Manage volumes on a Portainer endpoint");
    assert_eq!(lines[1], "");
    assert_eq!(lines[2], "Usage: portctl volume <COMMAND>");
    assert_eq!(lines[4], "Commands:");
    assert_eq!(lines[5], format!("  {:<12} {}", "ls", "List all volumes on an endpoint"));
    assert_eq!(*lines.last().unwrap(), format!("  {:<26} {}", "-h, --help", "Print help"));
}

#[test]
fn cli_short_help_on_a_leaf_lists_its_options() {
    let err = build_cli().try_get_matches_from(&["portctl", "container", "logs", "-h"]).unwrap_err();
    assert_eq!(err.kind, portctl::argparse::CliErrorKind::DisplayHelp);
    assert!(err.detail.contains("Usage: portctl container logs [OPTIONS]"));
    assert!(err.detail.contains("-e, --endpoint <NAME>"));
    assert!(err.detail.contains("<CONTAINER>") || err.detail.contains("<ID>"));
}

#[test]
fn cli_version_is_asked_at_the_top() {
    let err = build_cli().try_get_matches_from(&["portctl", "--version"]).unwrap_err();
    assert_eq!(err.kind, portctl::argparse::CliErrorKind::DisplayVersion);
}

#[test]
fn cli_accepted_lines_have_their_required_arguments() {
    let err = build_cli().try_get_matches_from(&["portctl", "volume", "create", "v"]).unwrap_err();
    assert_eq!(err.kind, portctl::argparse::CliErrorKind::MissingRequired);
    assert_eq!(err.detail, "endpoint");
    let err = build_cli()
        .try_get_matches_from(&["portctl", "container", "logs", "-e", "ep", "c", "--tail", "ten"])
        .unwrap_err();
    assert_eq!(err.kind, portctl::argparse::CliErrorKind::InvalidValue);
    let err = build_cli().try_get_matches_from(&["portctl", "endpoint", "inspect", "a", "--help", "-x"]).unwrap_err();
    assert_eq!(err.kind, portctl::argparse::CliErrorKind::DisplayHelp);
}

#[test]
fn cli_group_without_arguments_answers_with_its_help() {
    let err = build_cli().try_get_matches_from(&["portctl", "stack"]).unwrap_err();
    assert_eq!(err.kind, CliErrorKind::HelpForMissingSubcommand);
    assert!(err.detail.contains("Usage: portctl stack <COMMAND>"));
    let err = build_cli().try_get_matches_from(&["portctl"]).unwrap_err();
    assert_eq!(err.kind, CliErrorKind::HelpForMissingSubcommand);
    assert!(err.detail.contains("Usage: portctl [OPTIONS] <COMMAND>"));
    let err = build_cli().try_get_matches_from(&["portctl", "--insecure"]).unwrap_err();
    assert_eq!(err.kind, CliErrorKind::MissingSubcommand);
}

#[test]
fn cli_help_subcommand_names_the_command() {
    let err = build_cli().try_get_matches_from(&["portctl", "help"]).unwrap_err();
    assert_eq!(err.kind, CliErrorKind::DisplayHelp);
    assert!(err.detail.contains("Usage: portctl [OPTIONS] <COMMAND>"));
    let err = build_cli().try_get_matches_from(&["portctl", "help", "stack"]).unwrap_err();
    assert_eq!(err.kind, CliErrorKind::DisplayHelp);
    assert!(err.detail.starts_with("Manage stacks on a Portainer endpoint"));
    let err = build_cli().try_get_matches_from(&["portctl", "stack", "help", "deploy"]).unwrap_err();
    assert_eq!(err.kind, CliErrorKind::DisplayHelp);
    assert!(err.detail.contains("Usage: portctl stack deploy [OPTIONS]"));
    let err = build_cli().try_get_matches_from(&["portctl", "help", "nope"]).unwrap_err();
    assert_eq!(err.kind, CliErrorKind::UnrecognizedSubcommand);
    assert_eq!(err.detail, "nope");
}
