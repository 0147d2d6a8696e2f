//! The League Client lockfile: `name:pid:port:password:protocol`.

use vstd::prelude::*;
use crate::text::{
    concat2, nat_to_string, parse_u16, parse_u32, parse_unsigned, split_char, split_seq, str_eq,
    trim, trim_str, decimal_digits, push_str,
};

verus! {

/// Why talking to the League Client's local API failed.
#[derive(Debug, Clone, Copy, PartialEq, Eq, Structural)]
pub enum LcuAdapterError {
    InvalidLockfile,
    Http,
}

/// The credentials of the League Client's local API.
#[derive(Clone, PartialEq, Eq)]
pub struct LockfileCredentials {
    pub port: u16,
    pub password: String,
    pub pid: u32,
}

impl LockfileCredentials {
    /// The debug rendering of the credentials, with the password redacted.
    pub fn debug_text(&self) -> (r: String)
        ensures
            r@ == "LockfileCredentials { port: "@ + decimal_digits(self.port as nat)
                + ", password: \"<redacted>\" }"@,
    {
        let mut out = "LockfileCredentials { port: ".to_owned();
        let port = nat_to_string(self.port as u64);
        push_str(&mut out, port.as_str());
        push_str(&mut out, ", password: \"<redacted>\" }");
        out
    }
}

/// The credentials a lockfile holds, as `(port, password, pid)`: exactly five
/// colon-separated fields (after trimming the whole text), a non-blank name and password,
/// a pid and a port that parse as non-zero integers of their widths, and the protocol
/// `https`. Each field is trimmed.
pub open spec fn lockfile_spec(contents: Seq<char>) -> Option<(u16, Seq<char>, u32)> {
    let parts = split_seq(trim(contents), ':');
    if parts.len() != 5 {
        None
    } else {
        let name = trim(parts[0]);
        let pid = parse_unsigned(trim(parts[1]));
        let port = parse_unsigned(trim(parts[2]));
        let password = trim(parts[3]);
        let protocol = trim(parts[4]);
        if name.len() == 0 || password.len() == 0 {
            None
        } else if !(pid matches Some(p) && 0 < p <= u32::MAX) {
            None
        } else if !(port matches Some(q) && 0 < q <= u16::MAX) {
            None
        } else if protocol != "https"@ {
            None
        } else {
            Some((port.unwrap() as u16, password, pid.unwrap() as u32))
        }
    }
}

/// Reads the credentials of a lockfile; any deviation from `lockfile_spec` is an invalid
/// lockfile.
pub fn parse_lockfile(contents: &str) -> (r: Result<LockfileCredentials, LcuAdapterError>)
    ensures
        match lockfile_spec(contents@) {
            Some((port, password, pid)) => r matches Ok(c) && c.port == port && c.password@
                == password && c.pid == pid,
            None => r == Err::<LockfileCredentials, LcuAdapterError>(
                LcuAdapterError::InvalidLockfile,
            ),
        },
{
    let parts = split_char(trim_str(contents), ':');
    if parts.len() != 5 {
        return Err(LcuAdapterError::InvalidLockfile);
    }
    assert(parts.deep_view()[0] == parts@[0]@);
    assert(parts.deep_view()[1] == parts@[1]@);
    assert(parts.deep_view()[2] == parts@[2]@);
    assert(parts.deep_view()[3] == parts@[3]@);
    assert(parts.deep_view()[4] == parts@[4]@);
    let name = trim_str(parts[0].as_str());
    let pid = trim_str(parts[1].as_str());
    let port = trim_str(parts[2].as_str());
    let password = trim_str(parts[3].as_str());
    let protocol = trim_str(parts[4].as_str());
    if name.unicode_len() == 0 || password.unicode_len() == 0 {
        return Err(LcuAdapterError::InvalidLockfile);
    }
    let parsed_pid = match parse_u32(pid) {
        Some(v) => v,
        None => {
            return Err(LcuAdapterError::InvalidLockfile);
        },
    };
    if parsed_pid == 0 {
        return Err(LcuAdapterError::InvalidLockfile);
    }
    let parsed_port = match parse_u16(port) {
        Some(v) => v,
        None => {
            return Err(LcuAdapterError::InvalidLockfile);
        },
    };
    if parsed_port == 0 {
        return Err(LcuAdapterError::InvalidLockfile);
    }
    if !str_eq(protocol, "https") {
        return Err(LcuAdapterError::InvalidLockfile);
    }
    Ok(LockfileCredentials { port: parsed_port, password: password.to_owned(), pid: parsed_pid })
}

} // verus!
