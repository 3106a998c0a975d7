//! What becomes of the output of `utmctl`, `osascript` and `qemu-img`.

use vstd::prelude::*;
use crate::error::Error;
use crate::text::{decimal, join, push_decimal, push_joined, trim, trim_text};

verus! {

/// What a failed command reports: its trimmed standard error, or its trimmed standard
/// output when the error stream is blank.
pub open spec fn failure_detail(stdout: Seq<char>, stderr: Seq<char>) -> Seq<char> {
    if trim(stderr).len() == 0 {
        trim(stdout)
    } else {
        trim(stderr)
    }
}

/// The failure detail of a command.
pub fn failure_detail_text(stdout: &str, stderr: &str) -> (r: String)
    ensures
        r@ == failure_detail(stdout@, stderr@),
{
    let e = trim_text(stderr);
    if e.as_str().is_empty() {
        trim_text(stdout)
    } else {
        e
    }
}

/// The result of `utmctl <args>` that exited with `success` and printed `stdout` and
/// `stderr`: the trimmed output, or an [`Error::Utmctl`] that names the command.
pub fn utmctl_outcome(args: &[&str], success: bool, stdout: &str, stderr: &str) -> (r: Result<
    String,
    Error,
>)
    ensures
        success ==> (r matches Ok(o) && o@ == trim(stdout@)),
        !success ==> (r matches Err(Error::Utmctl(m)) && m@ == "utmctl "@ + join(
            args@.map_values(|a: &str| a@),
            " "@,
        ) + " failed: "@ + failure_detail(stdout@, stderr@)),
{
    if success {
        Ok(trim_text(stdout))
    } else {
        let detail = failure_detail_text(stdout, stderr);
        let mut m = String::new();
        m.append("utmctl ");
        push_joined(&mut m, args, " ");
        m.append(" failed: ");
        m.append(detail.as_str());
        Err(Error::Utmctl(m))
    }
}

/// The result of an `osascript` run: the trimmed output, or an [`Error::AppleScript`] with
/// the trimmed error stream.
pub fn osascript_outcome(success: bool, stdout: &str, stderr: &str) -> (r: Result<String, Error>)
    ensures
        success ==> (r matches Ok(o) && o@ == trim(stdout@)),
        !success ==> (r matches Err(Error::AppleScript(m)) && m@ == trim(stderr@)),
{
    if success {
        Ok(trim_text(stdout))
    } else {
        Err(Error::AppleScript(trim_text(stderr)))
    }
}

/// The size argument of `qemu-img create` for `size_gb` gigabytes (`20G`).
pub fn qemu_img_size_arg(size_gb: u32) -> (r: String)
    ensures
        r@ == decimal(size_gb as nat) + "G"@,
{
    let mut r = String::new();
    push_decimal(&mut r, size_gb as u64);
    r.append("G");
    r
}

/// The result of `qemu-img create`.
pub fn qemu_img_outcome(success: bool, stderr: &str) -> (r: Result<(), Error>)
    ensures
        success <==> r is Ok,
        !success ==> (r matches Err(Error::Other(m)) && m@ == "qemu-img create failed: "@ + trim(
            stderr@,
        )),
{
    if success {
        Ok(())
    } else {
        let mut m = String::new();
        m.append("qemu-img create failed: ");
        let t = trim_text(stderr);
        m.append(t.as_str());
        Err(Error::Other(m))
    }
}

/// The result of `open -a UTM`.
pub fn launch_outcome(success: bool, stderr: &str) -> (r: Result<(), Error>)
    ensures
        success <==> r is Ok,
        !success ==> (r matches Err(Error::Other(m)) && m@ == "failed to launch UTM: "@ + trim(
            stderr@,
        )),
{
    if success {
        Ok(())
    } else {
        let mut m = String::new();
        m.append("failed to launch UTM: ");
        let t = trim_text(stderr);
        m.append(t.as_str());
        Err(Error::Other(m))
    }
}

/// The error for a program that could not be started: [`Error::BinaryNotFound`] naming
/// `program` when it does not exist (`not_found`: the I/O error's kind is `NotFound`),
/// else the I/O error `e` itself.
pub fn spawn_failure(program: &str, e: std::io::Error, not_found: bool) -> (r: Error)
    ensures
        not_found ==> (r matches Error::BinaryNotFound(p) && p@ == program@),
        !not_found ==> r == Error::Io(e),
{
    if not_found {
        Error::BinaryNotFound(program.to_owned())
    } else {
        Error::Io(e)
    }
}

} // verus!
