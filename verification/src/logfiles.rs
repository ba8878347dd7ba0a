//! The names and the contents of the files the program keeps its logs in.
use vstd::prelude::*;
use vstd::string::StringExecFns;
use crate::text::{decimal, push_decimal};

verus! {

/// The path of the `t`-th log file the program may start.
pub open spec fn logger_path(t: nat) -> Seq<char> {
    "log/log"@ + decimal(t) + ".log"@
}

/// The log files to try, in order, when `tries` attempts are allowed: the
/// first that can be newly created is used.
pub fn logger_paths(tries: i32) -> (paths: Vec<String>)
    ensures
        paths@.len() == if tries > 0 { tries as int } else { 0 },
        forall|t: int| 0 <= t < paths@.len() ==> #[trigger] paths@[t]@ == logger_path(t as nat),
{
    let mut paths: Vec<String> = Vec::new();
    if tries <= 0 {
        return paths;
    }
    let n = tries as u32;
    let mut t: u32 = 0;
    while t < n
        invariant
            t <= n,
            n as int == tries as int,
            paths@.len() == t,
            forall|k: int| 0 <= k < paths@.len() ==> #[trigger] paths@[k]@ == logger_path(k as nat),
        decreases n - t,
    {
        let mut p = String::from_str("log/log");
        push_decimal(&mut p, t);
        p.append(".log");
        paths.push(p);
        t = t + 1;
    }
    paths
}

/// What the program records of the port it listens on: the port in decimal.
pub fn port_log_text(port: u16) -> (text: String)
    ensures
        text@ == decimal(port as nat),
{
    let mut s = String::new();
    push_decimal(&mut s, port as u32);
    assert(s@ =~= decimal(port as nat));
    s
}

} // verus!
