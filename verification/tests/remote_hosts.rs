use kodade_cli::cli::SessionCommand;
use kodade_cli::remote::{
    local_socket_path, remote_socket, remote_word, run_args, runtime_dir, session_output,
    socket_path_args, start_daemon_args, tunnel_args, upgrade_args, upload_args, validate_host,
    version_args,
};
use kodade_cli::remote_prepare::{
    arch_to_target, check_installed, choose_download, expected_digest, os_to_target, preparation,
    read_probe, verify_archive, version_is_compatible, version_text, Preparation, Release,
    METADATA_URL,
};
use kodade_cli::remote_windows;

#[test]
fn concurrent_tunnels_never_share_a_local_socket() {
    assert_ne!(
        local_socket_path("/run/user/1", 7, 1),
        local_socket_path("/run/user/1", 7, 2)
    );
}

#[test]
fn remote_shell_preserves_session_arguments_literally() {
    let session = "work; printf injected";
    let args = socket_path_args("/tmp/cm-%C", "host", session);
    let remote = &args[args.iter().position(|arg| arg == "host").unwrap() + 1..];
    let rendered = remote.join(" ");
    assert!(rendered.contains("'work; printf injected'"), "{rendered}");
}

#[test]
fn command_builders_carry_control_options_and_targets() {
    let cp = "/run/kodade-cli/cm-%C";
    let host = "user@host";

    let version = version_args(cp, host);
    assert_eq!(
        version,
        vec![
            "-o",
            "BatchMode=yes",
            "-o",
            "ConnectTimeout=10",
            "-o",
            "ControlMaster=auto",
            "-o",
            "ControlPath=/run/kodade-cli/cm-%C",
            "-o",
            "ControlPersist=60",
            "user@host",
            "if [ -x \"$HOME/.local/bin/kodade-cli\" ]; then exec \"$HOME/.local/bin/kodade-cli\" --version; else exec kodade-cli --version; fi",
        ]
    );

    assert_eq!(
        socket_path_args(cp, host, "work")
            .last()
            .map(String::as_str),
        Some("if [ -x \"$HOME/.local/bin/kodade-cli\" ]; then exec \"$HOME/.local/bin/kodade-cli\" session path -s work; else exec kodade-cli session path -s work; fi")
    );
    assert!(socket_path_args(cp, host, "work")
        .last()
        .unwrap()
        .contains("session path"));

    // The daemon starter forwards detached (`-f`) and names the session.
    let start = start_daemon_args(cp, host, "work");
    assert!(start.last().unwrap().contains("nohup sh -c"));
    assert!(start.last().unwrap().ends_with("2>&1 &"));

    // The forward is Unix-to-Unix: `-N -L local:remote`.
    let tunnel = tunnel_args(cp, host, "/tmp/local.sock", "/run/remote.sock");
    assert_eq!(tunnel[0], "-N");
    assert_eq!(tunnel[1], "-L");
    assert_eq!(tunnel[2], "/tmp/local.sock:/run/remote.sock");
    assert_eq!(tunnel.last().map(String::as_str), Some("user@host"));

    let run = run_args(cp, host, &["session", "ls"]);
    assert!(run.last().unwrap().contains("kodade-cli session ls"));
}

#[test]
fn remote_install_upload_is_staged_and_never_touches_system_paths() {
    let command = upload_args("/tmp/cm-%C", "buildbox", 42, &"a".repeat(64), "0.2.1")
        .last()
        .unwrap()
        .clone();
    assert!(command.contains("dest=\"$HOME/.local/bin/kodade-cli\""));
    assert!(command.contains("mktemp \"$dir/.kodade-cli.XXXXXX\""));
    assert!(command.contains("[ \"$bytes\" = \"42\" ]"));
    assert!(command.contains("[ \"$actual\" = \""));
    assert!(command.contains("chmod 755 \"$tmp\""));
    assert!(command.contains("mv -f \"$tmp\" \"$dest\""));
    assert!(command.contains("--version | grep -Fx \"kodade-cli 0.2.1\""));
    assert!(!command.contains("/usr/bin"));
}

#[test]
fn remote_platform_probe_accepts_released_unix_names() {
    assert_eq!(os_to_target("Linux").unwrap(), "linux");
    assert_eq!(arch_to_target("arm64").unwrap(), "aarch64");
    assert!(os_to_target("FreeBSD").is_err());
    assert!(arch_to_target("riscv64").is_err());
}

#[test]
fn remote_version_requires_exact_local_cli_version() {
    let local = "0.2.1";
    assert!(version_is_compatible(
        format!("kodade-cli {local}\n").as_bytes()
    ));
    assert!(!version_is_compatible(b"foreign-tool 0.2.1\n"));
    assert!(!version_is_compatible(
        format!("kodade-cli {local}\nextra output\n").as_bytes()
    ));
    assert!(!version_is_compatible(b"kodade-cli unparseable\n"));
    // A spelling that is no version is not compatible with itself.
    assert!(!version_is_compatible(b"kodade-cli 0.2\n"));
    assert_eq!(version_text("kodade-cli 0.2.1\n"), Some("0.2.1"));
}

fn release(metadata: &[u8]) -> Release {
    let value: serde_json::Value = serde_json::from_slice(metadata).expect("metadata is json");
    let text = |value: &serde_json::Value| value.as_str().unwrap_or_default().to_string();
    Release {
        tag_name: text(&value["tag_name"]),
        assets: value["assets"]
            .as_array()
            .into_iter()
            .flatten()
            .map(|asset| (text(&asset["name"]), text(&asset["browser_download_url"])))
            .collect(),
    }
}

/// Fetches what a release for a platform needs, one request after the other.
fn verified_release_binary(
    os: &str,
    arch: &str,
    mut fetch: impl FnMut(&str) -> Result<Vec<u8>, String>,
) -> Result<Vec<u8>, String> {
    let download = choose_download(&release(&fetch(METADATA_URL)?), os, arch)?;
    let sums = String::from_utf8(fetch(&download.sums_url)?).map_err(|e| e.to_string())?;
    let archive = fetch(&download.archive_url)?;
    verify_archive(&sums, &download.asset, &archive)?;
    Ok(archive)
}

#[test]
fn fixture_release_version_mismatch_stops_before_artifact_fetch() {
    let other = if kodade_cli::plugins::VERSION == "0.0.0" {
        "0.0.1"
    } else {
        "0.0.0"
    };
    let calls = std::cell::Cell::new(0);
    let error = verified_release_binary("Linux", "x86_64", |url| {
        calls.set(calls.get() + 1);
        assert_eq!(url, METADATA_URL);
        Ok(format!(r#"{{"tag_name":"v{other}"}}"#).into_bytes())
    })
    .unwrap_err();
    assert!(error.contains("does not match local kodade-cli"));
    assert_eq!(calls.get(), 1);
}

#[test]
fn fixture_download_rejects_a_bad_checksum_before_remote_upload() {
    let metadata = br#"{"tag_name":"v0.2.1","assets":[{"name":"SHA256SUMS","browser_download_url":"sums"},{"name":"kodade-cli-0.2.1-x86_64-unknown-linux-gnu.tar.gz","browser_download_url":"archive"}]}"#;
    let error = verified_release_binary("Linux", "x86_64", |url| match url {
        "https://api.github.com/repos/Kodade/kodade-cli/releases/latest" => Ok(metadata.to_vec()),
        "sums" => Ok(format!(
            "{}  kodade-cli-0.2.1-x86_64-unknown-linux-gnu.tar.gz\n",
            "0".repeat(64)
        )
        .into_bytes()),
        "archive" => Ok(b"fixture archive".to_vec()),
        _ => Err(format!("unexpected fixture URL {url}")),
    })
    .unwrap_err();
    assert!(error.contains("checksum mismatch"));
}

#[test]
fn a_good_checksum_lets_the_archive_through() {
    // The digest of three letters is well known.
    let digest = "ba7816bf8f01cfea414140de5dae2223b00361a396177a9cb410ff61f20015ad";
    assert_eq!(expected_digest(b"abc"), digest);
    let sums = format!("{digest}  kodade.tar.gz\n");
    assert!(verify_archive(&sums, "kodade.tar.gz", b"abc").is_ok());
    assert!(verify_archive(&sums, "other.tar.gz", b"abc").is_err());
}

#[test]
fn local_socket_path_is_host_and_session_scoped() {
    let a = local_socket_path("/run/user/1", 7, 1);
    let b = local_socket_path("/run/user/1", 7, 2);
    let c = local_socket_path("/run/user/1", 8, 1);
    assert_ne!(a, b);
    assert_ne!(a, c);
    let path = std::path::Path::new(&c);
    let name = path.file_name().unwrap().to_string_lossy().into_owned();
    assert!(!name.contains('@'));
    assert!(!name.contains(':'));
    assert_eq!(name, "s.sock");
    assert!(path
        .parent()
        .unwrap()
        .file_name()
        .unwrap()
        .to_string_lossy()
        .starts_with("remote-"));
}

#[test]
fn quoting_keeps_words_whole() {
    assert_eq!(remote_word("work"), "work");
    assert_eq!(remote_word("it's"), "'it'\\''s'");
    assert!(validate_host("-oProxyCommand=x").is_err());
    assert!(validate_host("user@build-box").is_ok());
    assert!(!runtime_dir("/run/user/1", 1000).is_empty());
}

#[test]
fn answers_of_a_host_are_read_line_by_line() {
    assert_eq!(
        remote_socket("host", "/run/kodade/work.sock\n"),
        Ok("/run/kodade/work.sock".to_string())
    );
    assert!(remote_socket("host", "\n").is_err());
    assert_eq!(
        session_output("host", "one\ntwo\n", true),
        vec!["host:one".to_string(), "host:two".to_string()]
    );
}

#[test]
fn a_machine_is_installed_only_where_that_was_asked_for() {
    assert_eq!(
        preparation("host", true, b"kodade-cli 0.2.1\n", false),
        Ok(Preparation::Ready)
    );
    assert_eq!(
        preparation("host", false, b"", true),
        Ok(Preparation::Install)
    );
    assert!(preparation("host", false, b"", false).is_err());
    assert!(check_installed("host", true, b"kodade-cli 0.2.1\n").is_ok());
    assert!(check_installed("host", true, b"kodade-cli 0.2.0\n").is_err());
    assert_eq!(
        read_probe("host", true, "Linux\nx86_64\n", "").unwrap(),
        ("Linux".to_string(), "x86_64".to_string())
    );
    assert!(read_probe("host", false, "", "no route").is_err());
}

#[test]
fn remote_upgrades_take_no_binary() {
    assert_eq!(
        upgrade_args("work", false),
        Ok(vec!["session", "upgrade", "-s", "work"])
    );
    assert_eq!(
        upgrade_args("work", true),
        Err("--binary is only supported for a local daemon upgrade".to_string())
    );
}

#[test]
fn bridges_open_to_compatible_hosts_only() {
    assert_eq!(
        remote_windows::bridge_probe("host", None).unwrap().last().map(String::as_str),
        Some(
            "if [ -x \"$HOME/.local/bin/kodade-cli\" ]; then exec \"$HOME/.local/bin/kodade-cli\" \
             --version; else exec kodade-cli --version; fi"
        )
    );
    assert_eq!(
        remote_windows::bridge_probe("host", Some("bad name".into())),
        Err("bad name".to_string())
    );
    assert!(remote_windows::bridge_probe("-host", None).is_err());
    let words =
        remote_windows::bridge_opening("host", "my work", true, b"kodade-cli 0.2.1\n", "").unwrap();
    assert_eq!(
        words[..5],
        ["-o", "BatchMode=yes", "-o", "ConnectTimeout=10", "host"].map(String::from)
    );
    assert!(words[5].contains("exec kodade-cli bridge -s 'my work'; fi"));
    assert_eq!(
        remote_windows::bridge_opening("host", "work", false, b"", " no route\n"),
        Err("could not run kodade-cli on host: no route".to_string())
    );
    assert_eq!(
        remote_windows::bridge_opening("host", "work", true, b"kodade-cli 0.0.1\n", ""),
        Err(
            "host has an incompatible kodade-cli; run `kodade-cli machine prepare host --install`"
                .to_string()
        )
    );
}

#[test]
fn bridged_hosts_run_session_and_doctor_commands() {
    let call = remote_windows::session_call("host", "work", &SessionCommand::Kill { name: None });
    assert!(call.unwrap()[5].contains("exec kodade-cli session kill -s work; fi"));
    assert!(remote_windows::session_call("a b", "work", &SessionCommand::Path).is_err());
    assert!(remote_windows::doctor_call("host", "work", true)[5]
        .contains("exec kodade-cli doctor -s work --json; fi"));
    assert_eq!(
        remote_windows::session_reply(true, "one\n".into(), "ignored"),
        Ok("one\n".to_string())
    );
    assert_eq!(
        remote_windows::session_reply(false, "one\n".into(), "gone\n"),
        Err("remote session command failed: gone".to_string())
    );
    assert_eq!(
        remote_windows::doctor_reply(false, String::new(), "gone\n"),
        Err("remote diagnostics failed: gone".to_string())
    );
}
