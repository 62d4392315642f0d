use monitorhop::ddc::{
    build_args, describe_failure, input_codes_from_reply, select_display_index, DdcBackend, GenericDdcBackend, MonitorInfo,
    MonitorInfoDto, DEFAULT_SOURCE_ADDR,
};

#[test]
fn set_vcp_returns_an_error_instead_of_panicking() {
    let backend = GenericDdcBackend;
    let result = backend.set_vcp(0, 0x60, 0x11, None);
    assert!(result.is_err());
}

#[test]
fn generic_backend_error_says_it_is_not_implemented() {
    let message = GenericDdcBackend.set_vcp(1, 0x60, 0x0f, Some(0x51)).unwrap_err().to_string();
    assert!(message.contains("not implemented"));
}

#[test]
fn build_args_uses_validated_default_source_addr() {
    let args = build_args(0, 0x60, 0x11, None);
    assert_eq!(args, ["0", "0x11", "0x60", "0x50"]);
}

#[test]
fn build_args_honors_explicit_source_addr_override() {
    let args = build_args(0, 0x60, 0x11, Some(0x51));
    assert_eq!(args, ["0", "0x11", "0x60", "0x51"]);
}

#[test]
fn build_args_pads_to_two_uppercase_digits_and_keeps_wider_values() {
    let args = build_args(12, 0x0f, 0x1f4, Some(0x0a));
    assert_eq!(args, ["12", "0x1F4", "0x0F", "0x0A"]);
    assert_eq!(DEFAULT_SOURCE_ADDR, 0x50);
}

#[test]
fn select_display_prefers_the_first_nvapi_display() {
    assert_eq!(select_display_index(&vec![false, true, true], 0), Some(1));
    assert_eq!(select_display_index(&vec![false, false], 1), Some(1));
    assert_eq!(select_display_index(&vec![false, false], 2), None);
    assert_eq!(select_display_index(&vec![], 0), None);
}

#[test]
fn input_codes_from_a_raw_reply() {
    assert_eq!(input_codes_from_reply(b"(vcp(60(0F 11 12)))"), vec![0x0f, 0x11, 0x12]);
    assert_eq!(input_codes_from_reply(&[0xff, b'v', b'c', b'p', b'(', b'6', b'0', b'(', b'1', b'1', b')']), vec![0x11]);
}

#[test]
fn monitor_info_converts_field_by_field() {
    let info = MonitorInfo { display_index: 2, id: "GSM773B".to_string(), model_name: Some("LG".to_string()) };
    let dto = MonitorInfoDto::from(info);
    assert_eq!(dto.display_index, 2);
    assert_eq!(dto.id, "GSM773B");
    assert_eq!(dto.model_name.as_deref(), Some("LG"));
}

#[test]
fn describe_failure_includes_captured_output_and_the_nvidia_hint() {
    let args = build_args(0, 0x60, 0x11, None);

    let message = describe_failure(&args, Some(1), b"", b"NVAPI initialization failed");

    assert!(message.contains("NVAPI initialization failed"));
    assert!(message.contains("NVIDIA GPU"));
}

#[test]
fn describe_failure_renders_code_args_and_trimmed_output() {
    let args = build_args(1, 0x60, 0x0f, Some(0x51));
    let message = describe_failure(&args, Some(-2), b"  out\n", b"\terr ");
    assert!(message.starts_with(
        "writeValueToDisplay.exe exited with Some(-2) (args: [\"1\", \"0x0F\", \"0x60\", \"0x51\"]). stdout: \"out\", stderr: \"err\". "
    ));
    assert!(describe_failure(&args, None, b"", b"").contains("exited with None"));
}

#[test]
fn generic_backend_error_points_at_the_open_decisions() {
    let message = GenericDdcBackend.set_vcp(0, 0x60, 0x11, None).unwrap_err().to_string();
    assert_eq!(
        message,
        "GenericDdcBackend (AMD/ADL fallback) is not implemented yet \u{2014} see DECISIONS.md #4/#10 and IMPROVEMENTS.md #4. This backend is not currently selected by any code path."
    );
}

#[test]
fn describe_failure_ends_with_the_nvidia_hint() {
    let args = build_args(0, 0x60, 0x11, None);
    let message = describe_failure(&args, Some(1), b"", b"");
    assert!(message.ends_with(
        "switching back to the NVIDIA GPU is currently the only known fix (see DECISIONS.md #4/#10, IMPROVEMENTS.md #4)."
    ));
}

#[test]
fn describe_failure_quotes_plain_output_verbatim() {
    let args = build_args(2, 0x60, 0x11, None);
    let message = describe_failure(&args, Some(3), b" ok then ", b"Display not found\r\n");
    assert!(message.contains("stdout: \"ok then\", stderr: \"Display not found\". "));
}
