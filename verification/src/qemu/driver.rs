//! What a driver is asked to launch, and how it reports a failure.

use vstd::prelude::*;

use crate::text;

verus! {

/// Everything that is needed to launch one Instance and connect to it.
#[derive(Debug, PartialEq, Eq)]
pub struct LaunchRequest {
    /// The `qemu-system-*` binary to run.
    pub binary: String,
    /// The arguments, without the program name.
    pub argv: Vec<String>,
    /// The path of the QMP socket that the process creates.
    pub qmp_socket_path: String,
}

/// What a launch request says.
pub struct LaunchText {
    /// The binary.
    pub binary: Seq<char>,
    /// The arguments.
    pub argv: Seq<Seq<char>>,
    /// The path of the QMP socket.
    pub qmp_socket_path: Seq<char>,
}

impl View for LaunchRequest {
    type V = LaunchText;

    open spec fn view(&self) -> LaunchText {
        LaunchText {
            binary: self.binary@,
            argv: text::texts(self.argv@),
            qmp_socket_path: self.qmp_socket_path@,
        }
    }
}

impl Clone for LaunchRequest {
    fn clone(&self) -> (r: LaunchRequest)
        ensures
            r@ == self@,
    {
        LaunchRequest {
            binary: self.binary.clone(),
            argv: text::clone_strings(&self.argv),
            qmp_socket_path: self.qmp_socket_path.clone(),
        }
    }
}

/// Raised when a launch fails or a QMP command cannot be completed.
#[derive(Debug, Clone, PartialEq, Eq)]
pub struct DriverError(pub String);

/// What is said of a launch request is all that it holds: the binary, every argument in order, and
/// the socket.
pub proof fn requests_are_seen_whole(r: LaunchRequest, i: int)
    ensures
        r@.binary == r.binary@,
        r@.qmp_socket_path == r.qmp_socket_path@,
        r@.argv.len() == r.argv@.len(),
        0 <= i < r.argv@.len() ==> r@.argv[i] == r.argv@[i]@,
{
}

} // verus!
