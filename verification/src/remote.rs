//! The texts sent to the password store and to a remote shell, and how the
//! password store's answer is read.
use vstd::prelude::*;

use crate::text::{join2, join3, trim, trim_seq};

verus! {

/// The shell command that asks the password store for the key passphrase of
/// `server_name`.
pub fn passkey_command(server_name: &str) -> (r: String)
    ensures
        r@ == "pass "@ + server_name@ + "-key"@,
{
    join3("pass ", server_name, "-key")
}

/// The shell command that asks the password store for the user password of
/// `server_name`.
pub fn userpass_command(server_name: &str) -> (r: String)
    ensures
        r@ == "pass "@ + server_name@,
{
    join2("pass ", server_name)
}

/// The password that a run of the password store gave: its standard output
/// trimmed of white space when the run succeeded, else the error message that
/// names the exit status `status`.
pub fn password_from_output(success: bool, stdout: &str, status: &str) -> (r: Result<
    String,
    String,
>)
    ensures
        success ==> (r matches Ok(p) && p@ == trim_seq(stdout@)),
        !success ==> (r matches Err(m) && m@ == "Failed to get password. "@ + status@),
{
    if success {
        Ok(trim(stdout))
    } else {
        Err(join2("Failed to get password. ", status))
    }
}

/// The remote command line that runs `command` as root.
pub fn sudo_command(command: &str) -> (r: String)
    ensures
        r@ == "sudo "@ + command@,
{
    join2("sudo ", command)
}

/// The line typed at the `sudo` password prompt.
pub fn password_line(password: &str) -> (r: String)
    ensures
        r@ == password@ + "\n"@,
{
    join2(password, "\n")
}

} // verus!
