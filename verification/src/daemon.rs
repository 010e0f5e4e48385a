//! The background daemon as the command line sees it: its home, its process
//! id, stopping, restarting, and which sources it watches.

use vstd::prelude::*;

use crate::paths::path_in;
use crate::paths::under;
use crate::scan::contains_text;
use crate::scan::has_text;
use crate::scan::number_in;
use crate::scan::parse_number;
use crate::scan::trim;
use crate::scan::trimmed;
use crate::text::cat2;
use crate::text::cat3;
use crate::text::dec;
use crate::text::dec_u32;
use crate::text::text_eq;

verus! {

/// How long `belt restart` waits for the daemon to stop, in milliseconds.
pub const STOP_TIMEOUT_MS: u64 = 30_000;

/// How long `belt restart` pauses between two looks, in milliseconds.
pub const STOP_POLL_MS: u64 = 250;

/// The Belt home directory: `$BELT_HOME` where it is set, else `.belt` in the
/// home directory of the user, else nothing.
pub fn belt_home(env: &Option<String>, home: &Option<String>) -> (r: Result<String, String>)
    ensures
        r is Ok <==> env is Some || home is Some,
        r matches Ok(p) ==> p@ == (match env {
            Some(dir) => dir@,
            None => path_in(home->0@, ".belt"@),
        }),
        r matches Err(e) ==> e@ == "could not determine home directory"@,
{
    match env {
        Some(dir) => Ok(dir.clone()),
        None => match home {
            Some(dir) => Ok(under(dir.as_str(), ".belt")),
            None => Err("could not determine home directory".to_string()),
        },
    }
}

/// The process id that the text of a PID file writes.
pub fn read_pid(content: &str) -> (r: Option<u32>)
    ensures
        r is Some <==> number_in(trim(content@), u32::MAX as nat) is Some,
        r matches Some(n) ==> number_in(trim(content@), u32::MAX as nat) == Some(n as nat),
{
    let text = trimmed(content);
    parse_number(text.as_str(), u32::MAX)
}

/// `belt stop`: what is said when the stop signal was sent, or could not be.
pub fn cmd_stop(pid: u32, sent: bool) -> (r: Result<String, String>)
    ensures
        r is Ok <==> sent,
        r matches Ok(t) ==> t@ == "Sent stop signal to daemon (PID "@ + dec(pid as nat) + ").\n"@,
        r matches Err(e) ==> e@ == "Failed to send signal to PID "@ + dec(pid as nat)
            + ". Process may not exist."@,
{
    let shown = dec_u32(pid);
    if sent {
        Ok(cat3("Sent stop signal to daemon (PID ", shown.as_str(), ").\n"))
    } else {
        Err(cat3("Failed to send signal to PID ", shown.as_str(), ". Process may not exist."))
    }
}

/// What is wrong where the daemon could not be told to look at its jobs.
pub fn signal_daemon(pid: u32, sent: bool) -> (r: Result<(), String>)
    ensures
        r is Ok <==> sent,
        r matches Err(e) ==> e@ == "failed to send SIGUSR1 to PID "@ + dec(pid as nat),
{
    if sent {
        Ok(())
    } else {
        let shown = dec_u32(pid);
        Err(cat2("failed to send SIGUSR1 to PID ", shown.as_str()))
    }
}

/// The stages of `belt restart`.
#[derive(Clone, Copy, Debug, PartialEq, Eq, Structural)]
pub enum RestartStage {
    /// Nothing was done yet.
    Begin,
    /// The daemon was told to stop.
    Stopping,
    /// No daemon runs any more.
    Stopped,
    /// The daemon did not stop in time.
    Failed,
}

/// What `belt restart` does next.
#[derive(Debug)]
pub enum RestartStep {
    /// Tell the daemon to stop.
    SendStop,
    /// Wait `STOP_POLL_MS` and look again.
    Wait,
    /// Say the message, and start the daemon.
    Start { message: String },
    /// Give up with this error.
    GiveUp { error: String },
}

/// The stage after a look at the PID file: `running` says whether it names a
/// daemon, `waited` how long the wait took so far, in milliseconds.
pub open spec fn restart_next(stage: RestartStage, running: bool, waited: int) -> RestartStage {
    match stage {
        RestartStage::Begin => if running {
            RestartStage::Stopping
        } else {
            RestartStage::Stopped
        },
        RestartStage::Stopping => if !running {
            RestartStage::Stopped
        } else if waited >= STOP_TIMEOUT_MS {
            RestartStage::Failed
        } else {
            RestartStage::Stopping
        },
        RestartStage::Stopped => RestartStage::Stopped,
        RestartStage::Failed => RestartStage::Failed,
    }
}

/// One step of `belt restart`, which stops a running daemon, waits until it is
/// gone, and starts it anew.
///
/// It starts only where no daemon runs any more, and gives up where the daemon
/// still runs after `STOP_TIMEOUT_MS`.
pub fn cmd_restart(stage: RestartStage, running: bool, waited: u64) -> (r: (
    RestartStage,
    RestartStep,
))
    ensures
        r.0 == restart_next(stage, running, waited as int),
        match r.1 {
            RestartStep::SendStop => stage == RestartStage::Begin && running,
            RestartStep::Wait => stage == RestartStage::Stopping && r.0 == RestartStage::Stopping,
            RestartStep::Start { message } => r.0 == RestartStage::Stopped && message@ == (
            if stage == RestartStage::Begin {
                "No running daemon found -- skipping stop phase.\n"@
            } else {
                "Daemon stopped.\n"@
            }),
            RestartStep::GiveUp { error } => r.0 == RestartStage::Failed && error@
                == "daemon did not stop within 30 seconds -- aborting restart"@,
        },
{
    match stage {
        RestartStage::Begin => {
            if running {
                (RestartStage::Stopping, RestartStep::SendStop)
            } else {
                (
                    RestartStage::Stopped,
                    RestartStep::Start {
                        message: "No running daemon found -- skipping stop phase.\n".to_string(),
                    },
                )
            }
        },
        RestartStage::Stopping => {
            if !running {
                (
                    RestartStage::Stopped,
                    RestartStep::Start { message: "Daemon stopped.\n".to_string() },
                )
            } else if waited >= STOP_TIMEOUT_MS {
                (
                    RestartStage::Failed,
                    RestartStep::GiveUp {
                        error: "daemon did not stop within 30 seconds -- aborting restart".to_string(),
                    },
                )
            } else {
                (RestartStage::Stopping, RestartStep::Wait)
            }
        },
        RestartStage::Stopped => (
            RestartStage::Stopped,
            RestartStep::Start { message: "Daemon stopped.\n".to_string() },
        ),
        RestartStage::Failed => (
            RestartStage::Failed,
            RestartStep::GiveUp {
                error: "daemon did not stop within 30 seconds -- aborting restart".to_string(),
            },
        ),
    }
}

/// A restart comes to the start of a new daemon only when none runs.
pub proof fn law_restart_starts_alone(stage: RestartStage, running: bool, waited: int)
    ensures
        stage != RestartStage::Stopped && restart_next(stage, running, waited)
            == RestartStage::Stopped ==> !running,
{
}

/// Once the time is over, a look at the daemon ends the wait.
pub proof fn law_restart_ends(stage: RestartStage, running: bool, waited: int)
    requires
        waited >= STOP_TIMEOUT_MS,
    ensures
        stage != RestartStage::Begin ==> restart_next(stage, running, waited)
            != RestartStage::Stopping,
{
}

/// What is said when the new daemon was spawned in the background as `pid`, or
/// is about to run in the foreground.
pub fn restart_message(background: Option<u32>) -> (r: String)
    ensures
        r@ == (match background {
            Some(pid) => "Daemon restarted in background (PID "@ + dec(pid as nat) + ").\n"@,
            None => "Starting daemon...\n"@,
        }),
{
    match background {
        Some(pid) => {
            let shown = dec_u32(pid);
            cat3("Daemon restarted in background (PID ", shown.as_str(), ").\n")
        },
        None => "Starting daemon...\n".to_string(),
    }
}

// ---------------------------------------------------------------------------
// Sources
// ---------------------------------------------------------------------------

/// A source that the daemon watches on GitHub.
pub open spec fn is_github_source(name: Seq<char>, url: Seq<char>) -> bool {
    name == "github"@ || contains_text(url, "github.com"@)
}

/// A configured source of work.
#[derive(Clone, Debug)]
pub struct SourceConfig {
    pub name: String,
    pub url: String,
    pub scan_interval_secs: u64,
}

/// The URLs of the sources that the daemon watches on GitHub.
pub open spec fn github_urls(sources: Seq<SourceConfig>) -> Seq<Seq<char>>
    decreases sources.len(),
{
    if sources.len() == 0 {
        seq![]
    } else if is_github_source(sources.last().name@, sources.last().url@) {
        github_urls(sources.drop_last()).push(sources.last().url@)
    } else {
        github_urls(sources.drop_last())
    }
}

/// The sources with which the daemon starts: the URLs of those that lie on
/// GitHub, by their name or by their address.
pub fn start_daemon(sources: &Vec<SourceConfig>) -> (r: Vec<String>)
    ensures
        crate::text::texts(r@) == github_urls(sources@),
{
    let mut out: Vec<String> = Vec::new();
    let mut i: usize = 0;
    proof {
        assert(crate::text::texts(out@) =~= github_urls(sources@.take(0)));
    }
    while i < sources.len()
        invariant
            i <= sources.len(),
            crate::text::texts(out@) == github_urls(sources@.take(i as int)),
        decreases sources.len() - i,
    {
        proof {
            assert(sources@.take(i + 1).drop_last() =~= sources@.take(i as int));
        }
        if text_eq(sources[i].name.as_str(), "github") || has_text(
            sources[i].url.as_str(),
            "github.com",
        ) {
            let ghost before = out@;
            out.push(sources[i].url.clone());
            proof {
                assert(crate::text::texts(out@) =~= crate::text::texts(before).push(
                    sources@[i as int].url@,
                ));
            }
        }
        i = i + 1;
    }
    proof {
        assert(sources@.take(sources@.len() as int) =~= sources@);
    }
    out
}

/// A restart waits for a running daemon for thirty seconds, and gives up then.
pub proof fn law_a_restart_waits_thirty_seconds(waited: int)
    ensures
        restart_next(RestartStage::Begin, true, waited) == RestartStage::Stopping,
        restart_next(RestartStage::Begin, false, waited) == RestartStage::Stopped,
        waited < 30_000 ==> restart_next(RestartStage::Stopping, true, waited)
            == RestartStage::Stopping,
        waited >= 30_000 ==> restart_next(RestartStage::Stopping, true, waited)
            == RestartStage::Failed,
        restart_next(RestartStage::Stopping, false, waited) == RestartStage::Stopped,
{
}

/// Every source on GitHub gives its URL, in the order of the sources; no other
/// source does.
pub proof fn law_github_sources_give_their_urls(a: Seq<SourceConfig>, b: Seq<SourceConfig>, s: SourceConfig)
    ensures
        github_urls(a + b) == github_urls(a) + github_urls(b),
        s.name@ == "github"@ || contains_text(s.url@, "github.com"@) ==> github_urls(seq![s]) == seq![
            s.url@,
        ],
        s.name@ != "github"@ && !contains_text(s.url@, "github.com"@) ==> github_urls(
            seq![s],
        ).len() == 0,
    decreases b.len(),
{
    assert(seq![s].drop_last() =~= seq![]);
    assert(github_urls(seq![s].drop_last()).len() == 0);
    if is_github_source(s.name@, s.url@) {
        assert(github_urls(seq![s]) =~= seq![s.url@]);
    }
    if b.len() == 0 {
        assert(a + b =~= a);
        assert(github_urls(a) + github_urls(b) =~= github_urls(a));
    } else {
        law_github_sources_give_their_urls(a, b.drop_last(), s);
        assert((a + b).drop_last() =~= a + b.drop_last());
        assert(github_urls(a + b) =~= github_urls(a) + github_urls(b));
    }
}

} // verus!
