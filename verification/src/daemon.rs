//! The rules for starting the rclone daemon: the arguments it is started
//! with and how long the client waits for it to answer.

use vstd::prelude::*;

verus! {

/// How many health checks the client makes while the daemon starts.
pub const HEALTH_CHECK_ATTEMPTS: u32 = 30;

/// The wait before each health check, in milliseconds.
pub const HEALTH_CHECK_INTERVAL_MS: u64 = 500;

/// The arguments of `rclone rcd`: the remote control server on
/// `127.0.0.1:5572`, without authentication, open to any origin, logging
/// in JSON.
pub fn daemon_args() -> (r: Vec<String>)
    ensures
        r@.map_values(|a: String| a@) == seq![
            "rcd"@,
            "--rc-addr=127.0.0.1:5572"@,
            "--rc-no-auth"@,
            "--rc-allow-origin=*"@,
            "--use-json-log"@,
        ],
{
    let mut r: Vec<String> = Vec::new();
    r.push("rcd".to_owned());
    r.push("--rc-addr=127.0.0.1:5572".to_owned());
    r.push("--rc-no-auth".to_owned());
    r.push("--rc-allow-origin=*".to_owned());
    r.push("--use-json-log".to_owned());
    assert(r@.map_values(|a: String| a@) =~= seq![
        "rcd"@,
        "--rc-addr=127.0.0.1:5572"@,
        "--rc-no-auth"@,
        "--rc-allow-origin=*"@,
        "--use-json-log"@,
    ]);
    r
}

/// What the client knows of a daemon process it started before.
#[derive(Debug, Clone, Copy, PartialEq, Eq, Structural)]
pub enum ProcessProbe {
    /// No process was started.
    NoProcess,
    /// The process still runs.
    Running,
    /// The process has exited.
    Exited,
    /// Whether it runs could not be found out.
    Unknown,
}

/// What starting the daemon does given what is known of its process.
#[derive(Debug, Clone, Copy, PartialEq, Eq, Structural)]
pub enum StartDecision {
    /// A daemon already runs: nothing is started.
    AlreadyRunning,
    /// A new process is started.
    Spawn,
    /// Starting fails with the error of the probe.
    Fail,
}

/// A running daemon is kept, an exited one (or none) is started anew, and a
/// process whose state cannot be found out makes the start fail.
pub fn start_decision(probe: ProcessProbe) -> (r: StartDecision)
    ensures
        r == (match probe {
            ProcessProbe::Running => StartDecision::AlreadyRunning,
            ProcessProbe::Unknown => StartDecision::Fail,
            _ => StartDecision::Spawn,
        }),
{
    match probe {
        ProcessProbe::Running => StartDecision::AlreadyRunning,
        ProcessProbe::Unknown => StartDecision::Fail,
        _ => StartDecision::Spawn,
    }
}

/// What a health check during start-up means.
#[derive(Debug, Clone, Copy, PartialEq, Eq, Structural)]
pub enum Readiness {
    /// The daemon answered after this many milliseconds.
    Ready(u64),
    /// Wait and check again.
    Retry,
    /// The daemon did not answer in time.
    GiveUp,
}

/// The outcome of the health check made after the `attempt`-th wait
/// (counting from zero): a daemon that answers is ready after
/// `(attempt + 1) * 500` ms; one that does not is checked again until
/// thirty checks have failed (fifteen seconds), then given up.
pub fn readiness(attempt: u32, healthy: bool) -> (r: Readiness)
    requires
        attempt < HEALTH_CHECK_ATTEMPTS,
    ensures
        healthy ==> r == Readiness::Ready(((attempt + 1) * 500) as u64),
        !healthy && attempt + 1 < HEALTH_CHECK_ATTEMPTS ==> r == Readiness::Retry,
        !healthy && attempt + 1 == HEALTH_CHECK_ATTEMPTS ==> r == Readiness::GiveUp,
{
    if healthy {
        Readiness::Ready((attempt as u64 + 1) * HEALTH_CHECK_INTERVAL_MS)
    } else if attempt + 1 < HEALTH_CHECK_ATTEMPTS {
        Readiness::Retry
    } else {
        Readiness::GiveUp
    }
}

/// The usual install locations of rclone, in the order they are tried: on
/// Windows under `C:\Program Files\rclone` and `C:\rclone`, elsewhere in
/// `/usr/local/bin`, `/usr/bin` and `/opt/homebrew/bin`.
pub open spec fn install_locations(windows: bool) -> Seq<Seq<char>> {
    if windows {
        seq!["C:\\Program Files\\rclone\\rclone.exe"@, "C:\\rclone\\rclone.exe"@]
    } else {
        seq!["/usr/local/bin/rclone"@, "/usr/bin/rclone"@, "/opt/homebrew/bin/rclone"@]
    }
}

/// The usual install locations of rclone on this kind of system.
pub fn rclone_install_locations(windows: bool) -> (r: Vec<String>)
    ensures
        r@.map_values(|s: String| s@) == install_locations(windows),
{
    let mut r: Vec<String> = Vec::new();
    if windows {
        r.push("C:\\Program Files\\rclone\\rclone.exe".to_owned());
        r.push("C:\\rclone\\rclone.exe".to_owned());
    } else {
        r.push("/usr/local/bin/rclone".to_owned());
        r.push("/usr/bin/rclone".to_owned());
        r.push("/opt/homebrew/bin/rclone".to_owned());
    }
    assert(r@.map_values(|s: String| s@) =~= install_locations(windows));
    r
}

/// Where the rclone program is taken from.
#[derive(Debug, Clone)]
pub enum BinarySource {
    /// The copy bundled beside the application.
    Bundled,
    /// The program that the search path names, at this path.
    OnPath(String),
    /// The install location at this index of the usual ones.
    Installed(usize),
    /// The bare name `rclone`, left to the system to find.
    BareName,
}

/// The first index below `n` whose location exists, where there is one.
pub open spec fn first_existing(exists: Seq<bool>, n: int) -> Option<int>
    decreases n,
{
    if n <= 0 {
        None
    } else {
        match first_existing(exists, n - 1) {
            Some(i) => Some(i),
            None => if n - 1 < exists.len() && exists[n - 1] {
                Some(n - 1)
            } else {
                None
            },
        }
    }
}

/// Chooses the rclone program from what was found, in order of preference:
/// the bundled copy where it exists; else the path that the search path
/// lookup printed (trimmed), where it printed a non-empty one; else the
/// first of the usual install locations that exists (`exists` says, for
/// each, whether it does); else the bare name.
pub fn choose_rclone_binary(bundled_exists: bool, on_path: Option<String>, exists: &Vec<bool>) -> (r:
    BinarySource)
    ensures
        bundled_exists ==> r == BinarySource::Bundled,
        !bundled_exists && on_path is Some && on_path->0@.len() > 0 ==> (r matches BinarySource::OnPath(
            p,
        ) && p@ == on_path->0@),
        !bundled_exists && !(on_path is Some && on_path->0@.len() > 0) ==> r == match first_existing(
            exists@,
            exists@.len() as int,
        ) {
            Some(i) => BinarySource::Installed(i as usize),
            None => BinarySource::BareName,
        },
{
    if bundled_exists {
        return BinarySource::Bundled;
    }
    match &on_path {
        Some(p) => {
            if p.as_str().unicode_len() > 0 {
                return BinarySource::OnPath(p.clone());
            }
        },
        None => {},
    }
    let mut i: usize = 0;
    while i < exists.len()
        invariant
            !bundled_exists,
            !(on_path is Some && on_path->0@.len() > 0),
            i <= exists@.len(),
            first_existing(exists@, i as int) is None,
        decreases exists@.len() - i,
    {
        if exists[i] {
            assert(first_existing(exists@, i + 1) == Some(i as int));
            proof {
                lemma_first_existing_stays(exists@, i + 1, exists@.len() as int);
            }
            return BinarySource::Installed(i);
        }
        i = i + 1;
    }
    BinarySource::BareName
}

proof fn lemma_first_existing_stays(exists: Seq<bool>, m: int, n: int)
    requires
        0 < m <= n,
        first_existing(exists, m) is Some,
    ensures
        first_existing(exists, n) == first_existing(exists, m),
    decreases n - m,
{
    if m < n {
        lemma_first_existing_stays(exists, m, n - 1);
    }
}

/// The install location chosen among the first `n` is the first that
/// exists: it exists and none before it does; none is chosen only where
/// none of them exists.
pub proof fn law_first_existing_is_first(exists: Seq<bool>, n: int)
    requires
        0 <= n <= exists.len(),
    ensures
        first_existing(exists, n) is Some ==> {
            let i = first_existing(exists, n)->0;
            &&& 0 <= i < n
            &&& exists[i]
            &&& forall|j: int| 0 <= j < i ==> !#[trigger] exists[j]
        },
        first_existing(exists, n) is None ==> forall|j: int| 0 <= j < n ==> !#[trigger] exists[j],
    decreases n,
{
    if n > 0 {
        law_first_existing_is_first(exists, n - 1);
    }
}

} // verus!
