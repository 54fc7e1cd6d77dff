use vstd::prelude::*;
use std::collections::VecDeque;

verus! {

/// Output lines kept from a running emulator; the oldest go first.
pub const MAX_OUTPUT_LINES: usize = 2_000;

#[derive(Clone, Copy, Debug, PartialEq, Eq, Structural)]
pub enum OutputStream {
    Stdout,
    Stderr,
}

#[derive(Clone, Debug, PartialEq, Eq)]
pub struct OutputLine {
    pub stream: OutputStream,
    pub text: String,
}

#[derive(Clone, Copy, Debug, PartialEq, Eq, Structural)]
pub enum ProcessState {
    Running,
    Exited { success: bool },
}

#[derive(Clone, Debug, PartialEq, Eq)]
pub struct ProcessError(pub String);

impl ProcessError {
    pub fn message(&self) -> (m: &str)
        ensures
            m@ == self.0@,
    {
        self.0.as_str()
    }
}

/// The emulator's command line: the configuration, then one `-v` per
/// level of verbosity.
pub fn build_emulator_arguments(config_path: &str, verbosity: u8) -> (args: Vec<String>)
    ensures
        args@.len() == verbosity + 1,
        args@[0]@ == config_path@,
        forall|i: int| 1 <= i < args@.len() ==> (#[trigger] args@[i])@ == "-v"@,
{
    let mut args: Vec<String> = Vec::new();
    args.push(config_path.to_owned());
    let mut k: u8 = 0;
    while k < verbosity
        invariant
            k <= verbosity,
            args@.len() == k + 1,
            args@[0]@ == config_path@,
            forall|i: int| 1 <= i < args@.len() ==> (#[trigger] args@[i])@ == "-v"@,
        decreases verbosity - k,
    {
        args.push("-v".to_owned());
        k += 1;
    }
    args
}

/// `std::path::Path::is_file` on `path`: whether it names a regular file.
/// What is on disk decides, so nothing is stated of the answer.
#[verifier::external_body]
fn path_is_file(path: &str) -> (r: bool)
{
    std::path::Path::new(path).is_file()
}

/// The verdict on a firmware path, given whether it names a file.
pub fn firmware_verdict(path: &str, is_file: bool) -> (r: Result<(), ProcessError>)
    ensures
        is_file <==> r is Ok,
        r matches Err(e) ==> e.0@ == "Firmware file does not exist: "@ + path@,
{
    if is_file {
        Ok(())
    } else {
        let mut m = String::new();
        m.append("Firmware file does not exist: ");
        m.append(path);
        Err(ProcessError(m))
    }
}

/// The verdict on an emulator executable path, given whether it names a
/// file.
pub fn executable_verdict(path: &str, is_file: bool) -> (r: Result<String, ProcessError>)
    ensures
        is_file <==> r is Ok,
        r matches Ok(p) ==> p@ == path@,
        r matches Err(e) ==> e.0@ == "Emulator executable does not exist: "@ + path@,
{
    if is_file {
        Ok(path.to_owned())
    } else {
        let mut m = String::new();
        m.append("Emulator executable does not exist: ");
        m.append(path);
        Err(ProcessError(m))
    }
}

/// Refuses a firmware path that names no file, before any child process
/// is started.
pub fn validate_firmware(path: &str) -> (r: Result<(), ProcessError>)
    ensures
        r matches Err(e) ==> e.0@ == "Firmware file does not exist: "@ + path@,
{
    let is_file = path_is_file(path);
    firmware_verdict(path, is_file)
}

/// The emulator executable at `path`, if it names a file.
pub fn validate_executable(path: &str) -> (r: Result<String, ProcessError>)
    ensures
        r matches Ok(p) ==> p@ == path@,
        r matches Err(e) ==> e.0@ == "Emulator executable does not exist: "@ + path@,
{
    let is_file = path_is_file(path);
    executable_verdict(path, is_file)
}

/// The state of a child process from its exit, if it has exited.
pub fn classify_exit(exit_success: Option<bool>) -> (s: ProcessState)
    ensures
        s == match exit_success {
            None => ProcessState::Running,
            Some(success) => ProcessState::Exited { success },
        },
{
    match exit_success {
        None => ProcessState::Running,
        Some(success) => ProcessState::Exited { success },
    }
}

/// Keeps the newest output lines of a running emulator.
pub fn push_output_line(output: &mut VecDeque<OutputLine>, line: OutputLine)
    requires
        old(output)@.len() <= MAX_OUTPUT_LINES,
    ensures
        final(output)@.len() <= MAX_OUTPUT_LINES,
        final(output)@ == if old(output)@.len() == MAX_OUTPUT_LINES {
            old(output)@.skip(1).push(line)
        } else {
            old(output)@.push(line)
        },
{
    if output.len() == MAX_OUTPUT_LINES {
        output.pop_front();
    }
    output.push_back(line);
}

} // verus!
