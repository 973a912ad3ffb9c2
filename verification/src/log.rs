//! Execution log entries and the exact text each kind of step records.

use vstd::prelude::*;
use vstd::string::{StrSliceExecFns, StringExecFns};
use vstd::utf8::encode_utf8;

verus! {

/// Ghost image of a log entry: raw stream bytes and the failure tag.
#[verifier::ext_equal]
pub struct EntryV {
    pub stdout: Seq<u8>,
    pub stderr: Seq<u8>,
    pub failure: bool,
}

/// One step's record: raw stdout bytes, raw stderr bytes, and whether the
/// step failed. A failing entry is always the last one of its task.
#[derive(Debug)]
pub struct LogEntry {
    pub stdout: Vec<u8>,
    pub stderr: Vec<u8>,
    pub failure: bool,
}

impl View for LogEntry {
    type V = EntryV;

    open spec fn view(&self) -> EntryV {
        EntryV { stdout: self.stdout@, stderr: self.stderr@, failure: self.failure }
    }
}

/// The success line of a symlink step.
pub open spec fn symlink_ok_line(src: Seq<char>, dst: Seq<char>) -> Seq<char> {
    "[symlink] "@ + src + " -> "@ + dst
}

/// The failure line of a symlink step: the success line with the error text.
pub open spec fn symlink_err_line(src: Seq<char>, dst: Seq<char>, msg: Seq<char>) -> Seq<char> {
    symlink_ok_line(src, dst) + ": "@ + msg
}

/// The marker line prepended to both streams of a command step.
pub open spec fn exec_marker(cmd: Seq<char>) -> Seq<char> {
    "[exec] "@ + cmd + "\n"@
}

/// The line a package stub records: the names it did not apply.
pub open spec fn pkg_line(names: Seq<char>) -> Seq<char> {
    "[pkg] "@ + names + ": package application is not implemented"@
}

/// Entry of a symlink that was placed.
pub open spec fn link_ok_entry(src: Seq<char>, dst: Seq<char>) -> EntryV {
    EntryV {
        stdout: encode_utf8(symlink_ok_line(src, dst)),
        stderr: Seq::empty(),
        failure: false,
    }
}

/// Entry of a symlink step that failed with error text `msg`.
pub open spec fn link_err_entry(src: Seq<char>, dst: Seq<char>, msg: Seq<char>) -> EntryV {
    EntryV {
        stdout: Seq::empty(),
        stderr: encode_utf8(symlink_err_line(src, dst, msg)),
        failure: true,
    }
}

/// Entry of a command that ran: the marker then the raw stdout; stderr is
/// recorded, also behind the marker, only when the command wrote to it.
pub open spec fn cmd_entry(cmd: Seq<char>, out: Seq<u8>, errb: Seq<u8>) -> EntryV {
    EntryV {
        stdout: encode_utf8(exec_marker(cmd)) + out,
        stderr: if errb.len() == 0 {
            Seq::empty()
        } else {
            encode_utf8(exec_marker(cmd)) + errb
        },
        failure: false,
    }
}

/// Entry of a command that could not be spawned.
pub open spec fn spawn_err_entry(cmd: Seq<char>) -> EntryV {
    EntryV {
        stdout: encode_utf8(exec_marker(cmd)),
        stderr: encode_utf8(exec_marker(cmd)),
        failure: true,
    }
}

/// Entry of the fail-closed package stub.
pub open spec fn pkg_stub_entry(names: Seq<char>) -> EntryV {
    EntryV { stdout: Seq::empty(), stderr: encode_utf8(pkg_line(names)), failure: true }
}

pub fn make_link_ok(src: &String, dst: &String) -> (r: LogEntry)
    ensures
        r@ == link_ok_entry(src@, dst@),
{
    let mut line = String::from_str("[symlink] ");
    line.append(src.as_str());
    line.append(" -> ");
    line.append(dst.as_str());
    proof {
        assert(line@ =~= symlink_ok_line(src@, dst@));
    }
    LogEntry { stdout: line.as_str().as_bytes_vec(), stderr: Vec::new(), failure: false }
}

pub fn make_link_err(src: &String, dst: &String, msg: &String) -> (r: LogEntry)
    ensures
        r@ == link_err_entry(src@, dst@, msg@),
{
    let mut line = String::from_str("[symlink] ");
    line.append(src.as_str());
    line.append(" -> ");
    line.append(dst.as_str());
    line.append(": ");
    line.append(msg.as_str());
    proof {
        assert(line@ =~= symlink_err_line(src@, dst@, msg@));
    }
    LogEntry { stdout: Vec::new(), stderr: line.as_str().as_bytes_vec(), failure: true }
}

fn make_marker(cmd: &String) -> (r: String)
    ensures
        r@ == exec_marker(cmd@),
{
    let mut line = String::from_str("[exec] ");
    line.append(cmd.as_str());
    line.append("\n");
    proof {
        assert(line@ =~= exec_marker(cmd@));
    }
    line
}

pub fn make_cmd_entry(cmd: &String, out: Vec<u8>, errb: Vec<u8>) -> (r: LogEntry)
    ensures
        r@ == cmd_entry(cmd@, out@, errb@),
{
    let marker = make_marker(cmd);
    let mut stdout = marker.as_str().as_bytes_vec();
    let mut out = out;
    stdout.append(&mut out);
    let stderr = if errb.len() == 0 {
        Vec::new()
    } else {
        let mut stderr = marker.as_str().as_bytes_vec();
        let mut errb = errb;
        stderr.append(&mut errb);
        stderr
    };
    LogEntry { stdout, stderr, failure: false }
}

pub fn make_spawn_err(cmd: &String) -> (r: LogEntry)
    ensures
        r@ == spawn_err_entry(cmd@),
{
    let marker = make_marker(cmd);
    LogEntry {
        stdout: marker.as_str().as_bytes_vec(),
        stderr: marker.as_str().as_bytes_vec(),
        failure: true,
    }
}

pub fn make_pkg_stub(names: &String) -> (r: LogEntry)
    ensures
        r@ == pkg_stub_entry(names@),
{
    let mut line = String::from_str("[pkg] ");
    line.append(names.as_str());
    line.append(": package application is not implemented");
    proof {
        assert(line@ =~= pkg_line(names@));
    }
    LogEntry { stdout: Vec::new(), stderr: line.as_str().as_bytes_vec(), failure: true }
}

} // verus!
