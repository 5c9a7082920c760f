use vareliox::agent::{
    allowed_program, is_system_info_request, project_commands, shell_command, validate_args,
    AgentCommandRequest, Platform, ProjectMarkers,
};

fn terminal_request(mode: &str, command: Option<&str>) -> AgentCommandRequest {
    AgentCommandRequest {
        request_id: "test".into(),
        root: ".".into(),
        cwd: "".into(),
        program: "cargo".into(),
        args: vec!["check".into()],
        timeout_secs: 30,
        terminal_mode: mode.into(),
        shell: "automatic".into(),
        command: command.map(str::to_string),
    }
}

#[test]
fn blocks_shell_and_system_commands() {
    assert!(allowed_program("powershell", Platform::Windows).is_none());
    assert!(allowed_program("powershell", Platform::Unix).is_none());
    assert!(validate_args(&vec!["test".into(), "&&".into(), "format".into()]).is_err());
    assert!(validate_args(&vec!["test".into()]).is_ok());
}

#[test]
fn resolves_package_managers_for_the_current_platform() {
    assert_eq!(allowed_program("npm", Platform::Windows), Some("npm.cmd"));
    assert_eq!(allowed_program("python", Platform::Windows), Some("python"));
    assert_eq!(allowed_program("npm", Platform::Unix), Some("npm"));
    assert_eq!(allowed_program("python", Platform::Unix), Some("python3"));
}

#[test]
fn full_shell_requires_an_explicit_terminal_level() {
    assert!(shell_command(&terminal_request("project", Some("echo test")), Platform::Unix).is_err());
    assert!(shell_command(&terminal_request("disabled", Some("echo test")), Platform::Unix).is_err());
    assert!(shell_command(&terminal_request("shell", Some("echo test")), Platform::Unix)
        .unwrap()
        .is_some());
}

#[test]
fn system_info_accepts_an_empty_shell_field() {
    let mut request = terminal_request("project", Some("   "));
    request.program = " nova-system-info ".into();
    request.cwd = "/".into();
    assert!(is_system_info_request(&request));
}

#[test]
fn detects_project_commands_without_guessing() {
    let markers = ProjectMarkers {
        package_json: Some(r#"{"scripts":{"test":"vitest","build":"vite build"}}"#.into()),
        cargo_toml: false,
        pyproject_toml: false,
        pytest_ini: false,
        tests_dir: false,
        go_mod: false,
        solution_file: false,
    };
    let commands = project_commands(&markers);
    assert!(commands.iter().any(|c| c.id == "npm-test"));
    assert!(commands.iter().any(|c| c.id == "npm-build"));
}
