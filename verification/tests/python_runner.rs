use venya::python_runner::{
    get_os_name, get_python_path, hifigan_arguments, process_outcome, vosk_arguments, HiFiGan,
    PythonRunnerError, Target, TargetOs, _get_os_name,
};

#[test]
fn os_names() {
    let mac_arm = Target { os: TargetOs::MacOs, aarch64: true };
    let mac_x86 = Target { os: TargetOs::MacOs, aarch64: false };
    assert_eq!(get_os_name(&mac_arm).ok().unwrap(), "macos_arm");
    assert_eq!(get_os_name(&mac_x86).ok().unwrap(), "macos_x86");
    assert_eq!(_get_os_name(&mac_arm).ok().unwrap(), "macos");
    let other = Target { os: TargetOs::Other, aarch64: false };
    assert!(matches!(get_os_name(&other), Err(PythonRunnerError::UnsupportedPlatform)));
    assert_eq!(get_os_name(&other).err().unwrap().message(), "Unsupported platform");
}

#[test]
fn python_path_depends_on_platform_and_existence() {
    let linux = Target { os: TargetOs::Linux, aarch64: false };
    let windows = Target { os: TargetOs::Windows, aarch64: false };
    assert_eq!(get_python_path("/base", &linux, true).ok().unwrap(), "/base/resources/linux/python/bin/python3");
    assert_eq!(
        get_python_path("/base", &windows, true).ok().unwrap(),
        "/base/resources/windows/python/bin/python.exe"
    );
    let missing = get_python_path("/base", &linux, false).err().unwrap();
    assert_eq!(missing.message(), "Python executable not found: /base/resources/linux/python/bin/python3");
}

#[test]
fn helper_arguments() {
    assert_eq!(vosk_arguments("/b", "a.wav"), vec!["/b/scripts/vosk_runner.py".to_string(), "a.wav".to_string()]);
    let linux = Target { os: TargetOs::Linux, aarch64: false };
    let args = hifigan_arguments("/b", &linux, "m.npy", "o.wav").ok().unwrap();
    assert_eq!(
        args,
        vec![
            "/b/scripts/hifigan/vocoder.py",
            "--checkpoint",
            "/b/resources/linux/hifigan/checkpoints/generator_v1",
            "--mel",
            "m.npy",
            "--output",
            "o.wav"
        ]
    );
    assert_eq!(HiFiGan::new().infer("/b", &linux, "m.npy", "o.wav").ok().unwrap(), args);
    assert!(process_outcome(true, "0").is_ok());
    assert_eq!(process_outcome(false, "1").err().unwrap().message(), "Python process failed with status 1");
}
