use dino_cli::cli::{Args, Command, NpuCompilerType, NpuError};
use dino_cli::commands::expand_hf_flag;

fn devices_args() -> Args {
    Args::new(Command::Devices)
}

#[test]
fn explicit_npu_configuration() {
    // dino-cli --npu-platform 3720 --npu-compiler-type driver devices
    let mut a = devices_args();
    a.npu_platform = Some("3720".to_string());
    a.npu_compiler_type = Some(NpuCompilerType::Driver);
    assert_eq!(
        a.npu_properties().unwrap(),
        vec![
            ("NPU_PLATFORM", "3720".to_string()),
            ("NPU_COMPILER_TYPE", "DRIVER".to_string())
        ]
    );
}

#[test]
fn defaults_do_not_override_openvino() {
    // dino-cli devices
    let a = devices_args();
    assert!(a.npu_properties().unwrap().is_empty());
}

#[test]
fn rejects_invalid_target() {
    // dino-cli --device CPU --npu-platform 3720 devices
    let mut a = devices_args();
    a.device = "CPU".to_string();
    a.npu_platform = Some("3720".to_string());
    assert!(a.npu_properties().is_err());
    // dino-cli --npu-platform invalid devices
    let mut a = devices_args();
    a.npu_platform = Some("invalid".to_string());
    assert!(a.npu_properties().is_err());
}

#[test]
fn npu_error_kinds() {
    let mut a = devices_args();
    a.device = "GPU.0".to_string();
    a.npu_compiler_type = Some(NpuCompilerType::Plugin);
    assert_eq!(a.npu_properties(), Err(NpuError::DeviceNotNpu));
    let mut a = devices_args();
    a.npu_platform = Some(String::new());
    assert_eq!(a.npu_properties(), Err(NpuError::InvalidPlatform));
    let mut a = devices_args();
    a.npu_platform = Some("37\u{ff12}0".to_string());
    assert_eq!(a.npu_properties(), Err(NpuError::InvalidPlatform));
}

#[test]
fn indexed_npu_device_is_accepted() {
    let mut a = devices_args();
    a.device = "NPU.1".to_string();
    a.npu_compiler_type = Some(NpuCompilerType::PreferPlugin);
    assert_eq!(
        a.npu_properties().unwrap(),
        vec![("NPU_COMPILER_TYPE", "PREFER_PLUGIN".to_string())]
    );
    let mut a = devices_args();
    a.device = "NPUX".to_string();
    a.npu_platform = Some("4000".to_string());
    assert_eq!(a.npu_properties(), Err(NpuError::DeviceNotNpu));
}

#[test]
fn compiler_property_values() {
    assert_eq!(NpuCompilerType::Driver.property_value(), "DRIVER");
    assert_eq!(NpuCompilerType::Plugin.property_value(), "PLUGIN");
    assert_eq!(NpuCompilerType::PreferPlugin.property_value(), "PREFER_PLUGIN");
}

#[test]
fn default_options() {
    let a = devices_args();
    assert_eq!(a.revision, "main");
    assert_eq!(a.device, "NPU");
    assert_eq!(a.skip_tokens, 0);
    assert!(a.size.is_none() && !a.stretch && !a.json);
}

#[test]
fn short_hf_flag_is_expanded() {
    assert_eq!(expand_hf_flag("-hf"), "--hf");
    assert_eq!(expand_hf_flag("-H"), "-H");
    assert_eq!(expand_hf_flag("--hf"), "--hf");
    assert_eq!(expand_hf_flag("-hff"), "-hff");
}
