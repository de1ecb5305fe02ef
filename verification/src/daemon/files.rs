//! The files of the daemon.

use crate::paths;
use crate::text;
use vstd::prelude::*;

verus! {

/// The directory of axon's files below the user's home.
pub open spec fn data_dir(home: Seq<char>) -> Seq<char> {
    paths::below(home, ".axon"@)
}

/// The directory of axon's files; there is none without a home.
pub fn axon_data_dir(home: Option<&str>) -> (r: Result<String, String>)
    ensures
        match home {
            Some(h) => r matches Ok(p) && p@ == data_dir(h@),
            None => r matches Err(e) && e@ == "HOME environment variable not set"@,
        },
{
    match home {
        Some(h) => Ok(paths::join(h, ".axon")),
        None => Err("HOME environment variable not set".to_string()),
    }
}

fn data_file(home: Option<&str>, name: &str) -> (r: Result<String, String>)
    ensures
        match home {
            Some(h) => r matches Ok(p) && p@ == paths::below(data_dir(h@), name@),
            None => r matches Err(e) && e@ == "HOME environment variable not set"@,
        },
{
    match axon_data_dir(home) {
        Ok(dir) => Ok(paths::join(dir.as_str(), name)),
        Err(e) => Err(e),
    }
}

/// The file with the daemon's port.
pub fn axon_port_file(home: Option<&str>) -> (r: Result<String, String>)
    ensures
        match home {
            Some(h) => r matches Ok(p) && p@ == paths::below(data_dir(h@), "port"@),
            None => r matches Err(e) && e@ == "HOME environment variable not set"@,
        },
{
    data_file(home, "port")
}

/// The file with the daemon's process id, written before the model is loaded.
pub fn axon_pid_file(home: Option<&str>) -> (r: Result<String, String>)
    ensures
        match home {
            Some(h) => r matches Ok(p) && p@ == paths::below(data_dir(h@), "daemon.pid"@),
            None => r matches Err(e) && e@ == "HOME environment variable not set"@,
        },
{
    data_file(home, "daemon.pid")
}

/// The daemon's log.
pub fn axon_log_file(home: Option<&str>) -> (r: Result<String, String>)
    ensures
        match home {
            Some(h) => r matches Ok(p) && p@ == paths::below(data_dir(h@), "daemon.log"@),
            None => r matches Err(e) && e@ == "HOME environment variable not set"@,
        },
{
    data_file(home, "daemon.log")
}

/// The file with the name of the model that the daemon serves.
pub fn axon_model_file(home: Option<&str>) -> (r: Result<String, String>)
    ensures
        match home {
            Some(h) => r matches Ok(p) && p@ == paths::below(data_dir(h@), "model"@),
            None => r matches Err(e) && e@ == "HOME environment variable not set"@,
        },
{
    data_file(home, "model")
}

/// The port that a port file names.
pub open spec fn port_in(contents: Seq<char>) -> Option<u16> {
    match text::number_in(text::trimmed(contents), u16::MAX as nat) {
        Some(n) => Some(n as u16),
        None => None,
    }
}

/// The port that a port file names, where the file could be read.
pub fn try_read_port(contents: Option<&str>) -> (r: Option<u16>)
    ensures
        r == match contents {
            Some(c) => port_in(c@),
            None => None,
        },
{
    match contents {
        Some(c) => match text::parse_number(text::trim(c), 65535) {
            Some(n) => Some(n as u16),
            None => None,
        },
        None => None,
    }
}

/// The process id that a pid file names.
pub open spec fn pid_in(contents: Seq<char>) -> Option<u32> {
    match text::number_in(text::trimmed(contents), u32::MAX as nat) {
        Some(n) => Some(n as u32),
        None => None,
    }
}

/// The process id that a pid file names, where the file could be read.
pub fn try_read_pid(contents: Option<&str>) -> (r: Option<u32>)
    ensures
        r == match contents {
            Some(c) => pid_in(c@),
            None => None,
        },
{
    match contents {
        Some(c) => match text::parse_number(text::trim(c), 0xffff_ffff) {
            Some(n) => Some(n as u32),
            None => None,
        },
        None => None,
    }
}

/// The last `n` lines.
pub open spec fn last_lines(s: Seq<char>, n: nat) -> Seq<Seq<char>> {
    let ls = text::lines_of(s);
    if ls.len() > n {
        ls.skip(ls.len() - n)
    } else {
        ls
    }
}

/// The last ten lines of a log.
pub fn log_tail(log: &str) -> (r: String)
    ensures
        r@ == text::joined(last_lines(log@, 10), "\n"@),
{
    let ls = text::lines(log);
    let start: usize = if ls.len() > 10 {
        ls.len() - 10
    } else {
        0
    };
    let mut tail: Vec<String> = Vec::new();
    let mut i: usize = start;
    let ghost all = text::views(ls@);
    while i < ls.len()
        invariant
            start <= i <= ls.len(),
            all == text::views(ls@),
            text::views(tail@) == all.subrange(start as int, i as int),
        decreases ls.len() - i,
    {
        let ghost before = text::views(tail@);
        tail.push(ls[i].clone());
        i += 1;
        assert(text::views(tail@) =~= before.push(ls[i - 1]@));
        assert(text::views(tail@) =~= all.subrange(start as int, i as int));
    }
    assert(text::views(tail@) =~= last_lines(log@, 10));
    text::join(&tail, "\n")
}

/// What the daemon writes, its port file reads back.
pub proof fn law_port_reads_back(port: u16)
    ensures
        port_in(text::decimal(port as nat)) == Some(port),
{
    crate::text_facts::lemma_decimal_digits(port as nat);
    let d = text::decimal(port as nat);
    assert(text::is_digit(d[0]));
    assert(text::is_digit(d[d.len() - 1]));
    crate::text_facts::lemma_tight(d);
    crate::text_facts::law_numeral_reads_back(port as nat, u16::MAX as nat);
}

/// The process id that the daemon writes, its pid file reads back, and white space round it does
/// not count, for the port either.
pub proof fn law_pid_reads_back(pid: u32, port: u16, a: Seq<char>, b: Seq<char>)
    requires
        text::blank(a) && text::blank(b),
    ensures
        pid_in(a + text::decimal(pid as nat) + b) == Some(pid),
        port_in(a + text::decimal(port as nat) + b) == Some(port),
{
    let d = text::decimal(pid as nat);
    crate::text_facts::lemma_decimal_digits(pid as nat);
    assert(text::is_digit(d[0]) && text::is_digit(d[d.len() - 1]));
    crate::text_facts::lemma_trim_around(a, d, b);
    crate::text_facts::law_numeral_reads_back(pid as nat, u32::MAX as nat);
    let p = text::decimal(port as nat);
    crate::text_facts::lemma_decimal_digits(port as nat);
    assert(text::is_digit(p[0]) && text::is_digit(p[p.len() - 1]));
    crate::text_facts::lemma_trim_around(a, p, b);
    crate::text_facts::law_numeral_reads_back(port as nat, u16::MAX as nat);
}

/// The end of a log is made of its last lines, in order; all of them where there are few.
pub proof fn law_end_of_a_log(s: Seq<char>, n: nat, i: int)
    ensures
        last_lines(s, n).len() <= n,
        text::lines_of(s).len() <= n ==> last_lines(s, n) == text::lines_of(s),
        text::lines_of(s).len() > n ==> last_lines(s, n).len() == n,
        0 <= i < last_lines(s, n).len() ==> last_lines(s, n)[i] == text::lines_of(
            s,
        )[text::lines_of(s).len() - last_lines(s, n).len() + i],
{
}

} // verus!
