//! Small helpers around delivery responses and logging: case-insensitive
//! header lookup in plain header lists, and the log-level decision.

use vstd::prelude::*;
use crate::strutil::{eq_ignore_case, lower_seq, str_eq, str_eq_ignore_case, ascii_lowercase};

verus! {

/// First-match, case-insensitive lookup in a plain header list.
pub open spec fn header_lookup_ci(hs: Seq<(Seq<char>, Seq<char>)>, name: Seq<char>) -> Option<
    Seq<char>,
>
    decreases hs.len(),
{
    if hs.len() == 0 {
        Option::<Seq<char>>::None
    } else if eq_ignore_case(hs[0].0, name) {
        Some(hs[0].1)
    } else {
        header_lookup_ci(hs.drop_first(), name)
    }
}

/// Finds a header by name, ignoring ASCII case, returning the first match's
/// value; used on the delivery response's header list.
pub fn get_header(headers: &Vec<(String, String)>, name: &str) -> (r: Option<String>)
    ensures
        r matches Some(v) ==> header_lookup_ci(
            headers@.map_values(|p: (String, String)| (p.0@, p.1@)),
            name@,
        ) == Some(v@),
        r is None ==> header_lookup_ci(
            headers@.map_values(|p: (String, String)| (p.0@, p.1@)),
            name@,
        ) is None,
{
    let ghost hv = headers@.map_values(|p: (String, String)| (p.0@, p.1@));
    let n = headers.len();
    let mut i: usize = 0;
    proof {
        assert(hv.skip(0) =~= hv);
    }
    while i < n
        invariant
            n == headers@.len(),
            hv == headers@.map_values(|p: (String, String)| (p.0@, p.1@)),
            i <= n,
            header_lookup_ci(hv, name@) == header_lookup_ci(hv.skip(i as int), name@),
        decreases n - i,
    {
        proof {
            assert(hv.skip(i as int)[0] == hv[i as int]);
            assert(hv[i as int] == (headers@[i as int].0@, headers@[i as int].1@));
            assert(hv.skip(i as int).drop_first() =~= hv.skip(i + 1));
        }
        if str_eq_ignore_case(headers[i].0.as_str(), name) {
            return Some(headers[i].1.clone());
        }
        i = i + 1;
    }
    proof {
        assert(hv.skip(n as int) =~= Seq::<(Seq<char>, Seq<char>)>::empty());
    }
    None
}

/// A diagnostic verbosity level.
#[derive(Clone, Copy, Debug, PartialEq, Eq, Structural)]
pub enum LogLevel {
    Trace,
    Debug,
    Info,
    Warn,
    Error,
}

/// The level the debug flag alone selects: everything when debugging,
/// warnings otherwise.
pub open spec fn debug_level(debug: bool) -> LogLevel {
    if debug {
        LogLevel::Trace
    } else {
        LogLevel::Warn
    }
}

/// The level a configuration selects: a recognized level name (in any
/// case) wins; otherwise the debug flag decides.
pub open spec fn chosen_level(rust_log: Option<Seq<char>>, debug: bool) -> LogLevel {
    match rust_log {
        Some(s) => {
            let l = lower_seq(s);
            if l == "trace"@ {
                LogLevel::Trace
            } else if l == "debug"@ {
                LogLevel::Debug
            } else if l == "info"@ {
                LogLevel::Info
            } else if l == "warn"@ {
                LogLevel::Warn
            } else if l == "error"@ {
                LogLevel::Error
            } else {
                debug_level(debug)
            }
        },
        None => debug_level(debug),
    }
}

/// The fallback decision when no explicit level is configured.
pub fn level_based_on_debug(debug: bool) -> (r: LogLevel)
    ensures
        r == debug_level(debug),
{
    if debug {
        LogLevel::Trace
    } else {
        LogLevel::Warn
    }
}

/// Decides the diagnostic level from the configured level name and the
/// debug flag; an unrecognized name falls back to the debug flag.
pub fn choose_log_level(rust_log: &Option<String>, debug: bool) -> (r: LogLevel)
    ensures
        r == chosen_level(
            match rust_log {
                Some(s) => Some(s@),
                None => None,
            },
            debug,
        ),
{
    match rust_log {
        Some(s) => {
            let l = ascii_lowercase(s.as_str());
            if str_eq(l.as_str(), "trace") {
                LogLevel::Trace
            } else if str_eq(l.as_str(), "debug") {
                LogLevel::Debug
            } else if str_eq(l.as_str(), "info") {
                LogLevel::Info
            } else if str_eq(l.as_str(), "warn") {
                LogLevel::Warn
            } else if str_eq(l.as_str(), "error") {
                LogLevel::Error
            } else {
                level_based_on_debug(debug)
            }
        },
        None => level_based_on_debug(debug),
    }
}

} // verus!
