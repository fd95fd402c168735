//! Locating the bundled Python interpreter and preparing the command lines of
//! the Python helper scripts (speech recognition with vosk, vocoding with
//! HiFi-GAN). Running the commands is left to the caller.

use vstd::prelude::*;
use vstd::string::*;
use crate::strings::{owned, concat2, concat3};

verus! {

/// The operating system a build targets.
pub enum TargetOs {
    MacOs,
    Linux,
    Windows,
    Other,
}

/// The platform a build targets: its operating system and whether its
/// processor is a 64-bit ARM one.
pub struct Target {
    pub os: TargetOs,
    pub aarch64: bool,
}

/// What can go wrong when the Python helpers are prepared or run.
#[derive(Debug)]
pub enum PythonRunnerError {
    /// The target platform has no bundled Python.
    UnsupportedPlatform,
    /// The interpreter is not at the given path.
    PythonNotFound(String),
    /// The Python process ended with the given (unsuccessful) status.
    ProcessFailed(String),
}

/// The text of an error.
pub open spec fn error_text(e: PythonRunnerError) -> Seq<char> {
    match e {
        PythonRunnerError::UnsupportedPlatform => "Unsupported platform"@,
        PythonRunnerError::PythonNotFound(p) => "Python executable not found: "@ + p@,
        PythonRunnerError::ProcessFailed(s) => "Python process failed with status "@ + s@,
    }
}

impl PythonRunnerError {
    /// The text of the error, as it is shown to the user.
    pub fn message(&self) -> (r: String)
        ensures
            r@ == error_text(*self),
    {
        match self {
            PythonRunnerError::UnsupportedPlatform => owned("Unsupported platform"),
            PythonRunnerError::PythonNotFound(p) => concat2(
                "Python executable not found: ",
                p.as_str(),
            ),
            PythonRunnerError::ProcessFailed(s) => concat2(
                "Python process failed with status ",
                s.as_str(),
            ),
        }
    }
}

/// The name of the resource directory for a platform, if it has one.
pub open spec fn os_name(target: Target) -> Option<Seq<char>> {
    match target.os {
        TargetOs::MacOs => if target.aarch64 {
            Some("macos_arm"@)
        } else {
            Some("macos_x86"@)
        },
        TargetOs::Linux => Some("linux"@),
        TargetOs::Windows => Some("windows"@),
        TargetOs::Other => None,
    }
}

/// The name of the resource directory for the platform, or
/// `UnsupportedPlatform`.
pub fn get_os_name(target: &Target) -> (r: Result<String, PythonRunnerError>)
    ensures
        match os_name(*target) {
            Some(n) => r matches Ok(s) && s@ == n,
            None => r matches Err(PythonRunnerError::UnsupportedPlatform),
        },
{
    match target.os {
        TargetOs::MacOs => if target.aarch64 {
            Ok(owned("macos_arm"))
        } else {
            Ok(owned("macos_x86"))
        },
        TargetOs::Linux => Ok(owned("linux")),
        TargetOs::Windows => Ok(owned("windows")),
        TargetOs::Other => Err(PythonRunnerError::UnsupportedPlatform),
    }
}

/// The operating system name used by the speech-synthesis resources: the
/// same for both macOS processors.
pub open spec fn tts_os_name(target: Target) -> Option<Seq<char>> {
    match target.os {
        TargetOs::MacOs => Some("macos"@),
        TargetOs::Linux => Some("linux"@),
        TargetOs::Windows => Some("windows"@),
        TargetOs::Other => None,
    }
}

/// The operating system name of the speech-synthesis resources, or
/// `UnsupportedPlatform`.
pub fn _get_os_name(target: &Target) -> (r: Result<String, PythonRunnerError>)
    ensures
        match tts_os_name(*target) {
            Some(n) => r matches Ok(s) && s@ == n,
            None => r matches Err(PythonRunnerError::UnsupportedPlatform),
        },
{
    match target.os {
        TargetOs::MacOs => Ok(owned("macos")),
        TargetOs::Linux => Ok(owned("linux")),
        TargetOs::Windows => Ok(owned("windows")),
        TargetOs::Other => Err(PythonRunnerError::UnsupportedPlatform),
    }
}

/// Where the bundled interpreter of a platform is, below the directory `base`.
pub open spec fn python_path_for(base: Seq<char>, target: Target) -> Option<Seq<char>> {
    match os_name(target) {
        Some(n) => Some(
            base + "/resources/"@ + n + if target.os is Windows {
                "/python/bin/python.exe"@
            } else {
                "/python/bin/python3"@
            },
        ),
        None => None,
    }
}

/// The path at which the bundled interpreter is expected, or
/// `UnsupportedPlatform`.
pub fn python_candidate(base: &str, target: &Target) -> (r: Result<String, PythonRunnerError>)
    ensures
        match python_path_for(base@, *target) {
            Some(p) => r matches Ok(s) && s@ == p,
            None => r matches Err(PythonRunnerError::UnsupportedPlatform),
        },
{
    let os = get_os_name(target)?;
    let mut path = concat3(base, "/resources/", os.as_str());
    match target.os {
        TargetOs::Windows => path.append("/python/bin/python.exe"),
        _ => path.append("/python/bin/python3"),
    }
    Ok(path)
}

/// The path of the bundled interpreter below `base`, given whether a file
/// exists at the path `python_candidate` names: the path when it exists,
/// `PythonNotFound` with the path when it does not, `UnsupportedPlatform` for
/// a platform without an interpreter.
pub fn get_python_path(base: &str, target: &Target, candidate_exists: bool) -> (r: Result<
    String,
    PythonRunnerError,
>)
    ensures
        match python_path_for(base@, *target) {
            Some(p) => if candidate_exists {
                r matches Ok(s) && s@ == p
            } else {
                r matches Err(PythonRunnerError::PythonNotFound(s)) && s@ == p
            },
            None => r matches Err(PythonRunnerError::UnsupportedPlatform),
        },
{
    let path = python_candidate(base, target)?;
    if !candidate_exists {
        return Err(PythonRunnerError::PythonNotFound(path));
    }
    Ok(path)
}

/// The arguments of the vosk speech recognition script for a WAV file.
pub fn vosk_arguments(base: &str, wav_file_path: &str) -> (r: Vec<String>)
    ensures
        r.deep_view() == seq![base@ + "/scripts/vosk_runner.py"@, wav_file_path@],
{
    let mut args: Vec<String> = Vec::new();
    args.push(concat2(base, "/scripts/vosk_runner.py"));
    args.push(owned(wav_file_path));
    assert(args.deep_view() =~= seq![base@ + "/scripts/vosk_runner.py"@, wav_file_path@]);
    args
}

/// The arguments of the HiFi-GAN vocoder script.
pub open spec fn hifigan_argument_list(base: Seq<char>, os: Seq<char>, mel: Seq<char>, output: Seq<char>) -> Seq<Seq<char>> {
    seq![
        base + "/scripts/hifigan/vocoder.py"@,
        "--checkpoint"@,
        base + "/resources/"@ + os + "/hifigan/checkpoints/generator_v1"@,
        "--mel"@,
        mel,
        "--output"@,
        output,
    ]
}

/// The arguments of the HiFi-GAN vocoder script turning the mel spectrogram
/// at `mel_path` into audio at `output_path`, or `UnsupportedPlatform`.
pub fn hifigan_arguments(base: &str, target: &Target, mel_path: &str, output_path: &str) -> (r: Result<
    Vec<String>,
    PythonRunnerError,
>)
    ensures
        match os_name(*target) {
            Some(n) => r matches Ok(v) && v.deep_view() == hifigan_argument_list(
                base@,
                n,
                mel_path@,
                output_path@,
            ),
            None => r matches Err(PythonRunnerError::UnsupportedPlatform),
        },
{
    let os = get_os_name(target)?;
    let mut checkpoint = concat3(base, "/resources/", os.as_str());
    checkpoint.append("/hifigan/checkpoints/generator_v1");
    let mut args: Vec<String> = Vec::new();
    args.push(concat2(base, "/scripts/hifigan/vocoder.py"));
    args.push(owned("--checkpoint"));
    args.push(checkpoint);
    args.push(owned("--mel"));
    args.push(owned(mel_path));
    args.push(owned("--output"));
    args.push(owned(output_path));
    assert(args.deep_view() =~= hifigan_argument_list(base@, os@, mel_path@, output_path@));
    Ok(args)
}

/// The outcome of a finished Python process: success, or `ProcessFailed`
/// with the status as printed.
pub fn process_outcome(success: bool, status: &str) -> (r: Result<(), PythonRunnerError>)
    ensures
        success ==> r is Ok,
        !success ==> (r matches Err(PythonRunnerError::ProcessFailed(s)) && s@ == status@),
{
    if !success {
        return Err(PythonRunnerError::ProcessFailed(owned(status)));
    }
    Ok(())
}

/// The HiFi-GAN vocoder.
pub struct HiFiGan {}

impl HiFiGan {
    /// The vocoder; it holds no state.
    pub fn new() -> (r: Self)
        ensures
            r == (HiFiGan {}),
    {
        HiFiGan {}
    }

    /// The arguments of the vocoder script that turns the spectrogram at
    /// `spectrogram_path` into audio at `output_path`.
    pub fn infer(&self, base: &str, target: &Target, spectrogram_path: &str, output_path: &str) -> (r: Result<
        Vec<String>,
        PythonRunnerError,
    >)
        ensures
            match os_name(*target) {
                Some(n) => r matches Ok(v) && v.deep_view() == hifigan_argument_list(
                    base@,
                    n,
                    spectrogram_path@,
                    output_path@,
                ),
                None => r matches Err(PythonRunnerError::UnsupportedPlatform),
            },
    {
        hifigan_arguments(base, target, spectrogram_path, output_path)
    }
}

} // verus!

verus! {

/// The bundled interpreter sits in the resource directory of its platform:
/// `macos_arm` on an ARM Mac and `macos_x86` on an Intel Mac, `linux`, and
/// `windows` (where it is `python.exe`); other platforms have none.
pub proof fn lemma_python_path_per_platform(base: Seq<char>, target: Target)
    ensures
        target.os is MacOs && target.aarch64 ==> python_path_for(base, target) == Some(
            base + "/resources/macos_arm/python/bin/python3"@,
        ),
        target.os is MacOs && !target.aarch64 ==> python_path_for(base, target) == Some(
            base + "/resources/macos_x86/python/bin/python3"@,
        ),
        target.os is Linux ==> python_path_for(base, target) == Some(
            base + "/resources/linux/python/bin/python3"@,
        ),
        target.os is Windows ==> python_path_for(base, target) == Some(
            base + "/resources/windows/python/bin/python.exe"@,
        ),
        target.os is Other ==> python_path_for(base, target) is None,
{
    reveal_strlit("/resources/");
    reveal_strlit("/python/bin/python3");
    reveal_strlit("/python/bin/python.exe");
    reveal_strlit("macos_arm");
    reveal_strlit("macos_x86");
    reveal_strlit("linux");
    reveal_strlit("windows");
    reveal_strlit("/resources/macos_arm/python/bin/python3");
    reveal_strlit("/resources/macos_x86/python/bin/python3");
    reveal_strlit("/resources/linux/python/bin/python3");
    reveal_strlit("/resources/windows/python/bin/python.exe");
    match target.os {
        TargetOs::MacOs => if target.aarch64 {
            assert(base + "/resources/"@ + "macos_arm"@ + "/python/bin/python3"@ =~= base
                + "/resources/macos_arm/python/bin/python3"@);
        } else {
            assert(base + "/resources/"@ + "macos_x86"@ + "/python/bin/python3"@ =~= base
                + "/resources/macos_x86/python/bin/python3"@);
        },
        TargetOs::Linux => {
            assert(base + "/resources/"@ + "linux"@ + "/python/bin/python3"@ =~= base
                + "/resources/linux/python/bin/python3"@);
        },
        TargetOs::Windows => {
            assert(base + "/resources/"@ + "windows"@ + "/python/bin/python.exe"@ =~= base
                + "/resources/windows/python/bin/python.exe"@);
        },
        TargetOs::Other => {},
    }
}

/// The interpreter and the HiFi-GAN checkpoint of a platform lie in the same
/// resource directory, the one `get_os_name` names.
pub proof fn lemma_python_and_checkpoint_share_resources(
    base: Seq<char>,
    target: Target,
    mel: Seq<char>,
    output: Seq<char>,
)
    requires
        os_name(target) is Some,
    ensures
        ({
            let dir = base + "/resources/"@ + os_name(target).unwrap();
            &&& python_path_for(base, target) matches Some(p) && p.take(dir.len() as int) == dir
            &&& hifigan_argument_list(base, os_name(target).unwrap(), mel, output)[2].take(
                dir.len() as int,
            ) == dir
        }),
{
    let n = os_name(target).unwrap();
    let dir = base + "/resources/"@ + n;
    let p = python_path_for(base, target).unwrap();
    assert(p.take(dir.len() as int) =~= dir);
    let c = hifigan_argument_list(base, n, mel, output)[2];
    assert(c == dir + "/hifigan/checkpoints/generator_v1"@);
    assert(c.take(dir.len() as int) =~= dir);
}

} // verus!
