//! Decisions around restarting the model service: reading why stopping it
//! failed, and the messages that ask the user for more privileges. Running
//! the commands is the application's part.
use vstd::prelude::*;
use crate::config::has_prefix_exec;

verus! {

/// Whether `p` occurs in `s`.
pub open spec fn occurs_in(s: Seq<char>, p: Seq<char>) -> bool {
    exists|i: int| 0 <= i && i + p.len() <= s.len() && #[trigger] s.subrange(i, i + p.len()) == p
}

/// Whether `p` occurs in `s`.
pub fn contains_text(s: &str, p: &str) -> (r: bool)
    ensures
        r == occurs_in(s@, p@),
{
    let n = s.unicode_len();
    let m = p.unicode_len();
    if m > n {
        return false;
    }
    if m == 0 {
        proof {
            assert(s@.subrange(0, 0 + p@.len() as int) =~= p@);
        }
        return true;
    }
    let mut i: usize = 0;
    while i <= n - m
        invariant
            n == s@.len(),
            m == p@.len(),
            1 <= m <= n,
            i <= n - m + 1,
            forall|j: int| 0 <= j < i ==> #[trigger] s@.subrange(j, j + m) != p@,
        decreases n - m + 1 - i,
    {
        let tail = s.substring_char(i, n);
        if has_prefix_exec(tail, p) {
            proof {
                assert(tail@.subrange(0, m as int) =~= s@.subrange(i as int, i + m));
            }
            return true;
        }
        proof {
            assert(tail@.subrange(0, m as int) =~= s@.subrange(i as int, i + m));
        }
        i = i + 1;
    }
    proof {
        assert forall|j: int| 0 <= j && j + p@.len() <= s@.len() implies #[trigger] s@.subrange(
            j,
            j + p@.len(),
        ) != p@ by {
            assert(j < i);
        }
    }
    false
}

/// Whether a failed stop reports missing privileges.
pub open spec fn lacks_privileges(stderr: Seq<char>) -> bool {
    occurs_in(stderr, "Operation not permitted"@) || occurs_in(stderr, "Permission denied"@)
}

/// Whether a failed stop only reports that the service was not running.
pub open spec fn was_not_running(stderr: Seq<char>) -> bool {
    occurs_in(stderr, "not found"@) || occurs_in(stderr, "not running"@)
}

/// Whether the error output of a failed stop command reports missing
/// privileges (Unix systems).
pub fn stop_needs_privileges(stderr: &str) -> (r: bool)
    ensures
        r == lacks_privileges(stderr@),
{
    contains_text(stderr, "Operation not permitted") || contains_text(stderr, "Permission denied")
}

/// Whether the error output of a failed stop command only says that the
/// service was not running, which is no real failure (Windows).
pub fn stop_found_nothing(stderr: &str) -> (r: bool)
    ensures
        r == was_not_running(stderr@),
{
    contains_text(stderr, "not found") || contains_text(stderr, "not running")
}

pub open spec fn admin_restart_message() -> Seq<char> {
    "Administrator privileges are required to restart Ollama service. Please run this application as administrator.\n\nSteps:\n1. Right-click the application icon\n2. Select 'Run as administrator'\n3. Try the restart operation again"@
}

pub open spec fn sudo_restart_message(os_name: Seq<char>) -> Seq<char> {
    "Administrator privileges are required to restart Ollama service on "@ + os_name
        + ".\n\nPlease manually execute the following commands in terminal:\n1. sudo pkill -f ollama\n2. ollama serve\n\nOr run this application with administrator privileges."@
}

/// The refusal given on Windows when restarting needs administrator rights.
pub fn request_admin_restart_windows() -> (r: Result<String, String>)
    ensures
        r matches Err(m) && m@ == admin_restart_message(),
{
    Err("Administrator privileges are required to restart Ollama service. Please run this application as administrator.\n\nSteps:\n1. Right-click the application icon\n2. Select 'Run as administrator'\n3. Try the restart operation again".to_owned())
}

/// The refusal given on a Unix system named `os_name` when restarting needs
/// administrator rights, with the commands to run by hand.
pub fn request_sudo_restart_unix(os_name: &str) -> (r: Result<String, String>)
    ensures
        r matches Err(m) && m@ == sudo_restart_message(os_name@),
{
    Err("Administrator privileges are required to restart Ollama service on ".to_owned().concat(
        os_name,
    ).concat(
        ".\n\nPlease manually execute the following commands in terminal:\n1. sudo pkill -f ollama\n2. ollama serve\n\nOr run this application with administrator privileges.",
    ))
}

} // verus!
