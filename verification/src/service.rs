//! The download service bridge: the command/event vocabulary shared by every
//! front end, and the decision half of the bridge control loop.
//!
//! The loop itself waits on two channels and calls the engine; that runs on
//! the engine's own scheduler, outside this crate.  Everything the loop
//! decides — which message answers which command outcome, which engine event
//! becomes which UI message, when the loop stops — is a function from plain
//! values to plain values and lives here, verified.

use vstd::prelude::*;
use crate::error::{error_from_engine, EngineFailure};
use crate::status::{is_converted, EngineConfig, EngineGlobalStats, EngineStatus};
use crate::text::starts_with_str;
use crate::types::{Download, DownloadOptions, DownloadType, GlobalStats};

verus! {

/// Commands a front end submits to the engine.
#[derive(Debug)]
pub enum EngineCommand {
    AddDownload { url: String, options: Option<DownloadOptions> },
    AddMagnet { uri: String, options: Option<DownloadOptions> },
    AddTorrent { data: Vec<u8>, options: Option<DownloadOptions> },
    Pause(String),
    Resume(String),
    Remove { gid: String, delete_files: bool },
    PauseAll,
    ResumeAll,
    UpdateConfig(EngineConfig),
    RefreshDownloads,
    RefreshStats,
    Shutdown,
}

/// Messages the bridge hands back to the front ends.
#[derive(Debug)]
pub enum UiMessage {
    EngineReady,
    DownloadAdded(Download),
    DownloadUpdated(String, Download),
    DownloadRemoved(String),
    DownloadCompleted(Download),
    DownloadFailed(String, String),
    StatsUpdated(GlobalStats),
    DownloadsList(Vec<Download>),
    Error(String),
}

/// What the engine answered to one command: an accepted add with the new
/// transfer's snapshot (where one could be fetched), a plain success, a
/// listing, counters, or a failure.
#[derive(Debug)]
pub enum CommandOutcome {
    Accepted(Option<EngineStatus>),
    Completed,
    Listing(Vec<EngineStatus>),
    Stats(EngineGlobalStats),
    Rejected(EngineFailure),
}

/// The message text an engine failure is reported under, as the error
/// taxonomy renders it.
pub open spec fn failure_text(e: EngineFailure) -> Seq<char> {
    match e {
        EngineFailure::NotFound(m) => "not found: "@ + m@,
        EngineFailure::InvalidInput { field, message } => "invalid input: "@ + field@ + ": "@
            + message@,
        EngineFailure::Network { message, retryable: _ } => "network error: "@ + message@,
        EngineFailure::Storage(m) => "database error: "@ + m@,
        EngineFailure::Other(m) => "download engine error: "@ + m@,
    }
}

fn failure_message(e: EngineFailure) -> (r: String)
    ensures
        r@ == failure_text(e),
{
    let ghost e0 = e;
    let err = error_from_engine(e);
    let r = err.to_text();
    proof {
        reveal_strlit("not found: ");
        reveal_strlit("invalid input: ");
        reveal_strlit(": ");
        reveal_strlit("network error: ");
        reveal_strlit("database error: ");
        reveal_strlit("download engine error: ");
        assert(r@ =~= failure_text(e0));
    }
    r
}

/// Whether this command is one that adds a transfer.
pub open spec fn is_add(cmd: EngineCommand) -> bool {
    cmd is AddDownload || cmd is AddMagnet || cmd is AddTorrent
}

/// Whether processing this command and outcome emits a message.
pub open spec fn command_emits(cmd: EngineCommand, outcome: CommandOutcome) -> bool {
    match outcome {
        CommandOutcome::Accepted(st) => is_add(cmd) && st is Some,
        CommandOutcome::Completed => cmd is Remove,
        CommandOutcome::Listing(_) => cmd is RefreshDownloads,
        CommandOutcome::Stats(_) => cmd is RefreshStats,
        CommandOutcome::Rejected(_) => !(cmd is Shutdown),
    }
}

/// The message that answers a command, where one does.
pub open spec fn command_reply_rel(
    cmd: EngineCommand,
    outcome: CommandOutcome,
    msg: UiMessage,
) -> bool {
    match outcome {
        CommandOutcome::Accepted(st) => is_add(cmd) && st is Some && msg is DownloadAdded
            && is_converted(msg->DownloadAdded_0, st->0),
        CommandOutcome::Completed => cmd is Remove && msg == UiMessage::DownloadRemoved(
            cmd->Remove_gid,
        ),
        CommandOutcome::Listing(sts) => cmd is RefreshDownloads && msg is DownloadsList
            && msg->DownloadsList_0@.len() == sts@.len() && (forall|i: int|
            0 <= i < sts@.len() ==> is_converted(#[trigger] msg->DownloadsList_0@[i], sts@[i])),
        CommandOutcome::Stats(st) => cmd is RefreshStats && msg is StatsUpdated && ({
            let g = msg->StatsUpdated_0;
            &&& g.download_speed == st.download_speed
            &&& g.upload_speed == st.upload_speed
            &&& g.num_active == (if st.num_active <= u32::MAX {
                st.num_active as u32
            } else {
                u32::MAX
            })
            &&& g.num_waiting == (if st.num_waiting <= u32::MAX {
                st.num_waiting as u32
            } else {
                u32::MAX
            })
            &&& g.num_stopped == (if st.num_stopped <= u32::MAX {
                st.num_stopped as u32
            } else {
                u32::MAX
            })
        }),
        CommandOutcome::Rejected(e) => msg is Error && msg->Error_0@ == failure_text(e),
    }
}

/// Decide what, if anything, answers a processed command.
///
/// An accepted add with a snapshot announces the new transfer; a removal
/// echoes the removed gid; a listing and counters are translated and
/// forwarded; every failure becomes an `Error` message and never anything
/// worse — the loop survives all of them.
pub fn command_reply(cmd: &EngineCommand, outcome: CommandOutcome) -> (r: Option<UiMessage>)
    ensures
        r is Some <==> command_emits(*cmd, outcome),
        r is Some ==> command_reply_rel(*cmd, outcome, r->Some_0),
{
    match outcome {
        CommandOutcome::Accepted(st) => {
            let is_add_cmd = match cmd {
                EngineCommand::AddDownload { .. } => true,
                EngineCommand::AddMagnet { .. } => true,
                EngineCommand::AddTorrent { .. } => true,
                _ => false,
            };
            if is_add_cmd {
                match st {
                    Some(status) => Some(UiMessage::DownloadAdded(crate::status::convert_status(status))),
                    None => None,
                }
            } else {
                None
            }
        },
        CommandOutcome::Completed => {
            match cmd {
                EngineCommand::Remove { gid, delete_files: _ } => Some(
                    UiMessage::DownloadRemoved(gid.clone()),
                ),
                _ => None,
            }
        },
        CommandOutcome::Listing(sts) => {
            match cmd {
                EngineCommand::RefreshDownloads => Some(
                    UiMessage::DownloadsList(crate::status::convert_statuses(sts)),
                ),
                _ => None,
            }
        },
        CommandOutcome::Stats(st) => {
            match cmd {
                EngineCommand::RefreshStats => Some(
                    UiMessage::StatsUpdated(crate::status::convert_global_stats(&st)),
                ),
                _ => None,
            }
        },
        CommandOutcome::Rejected(e) => {
            match cmd {
                EngineCommand::Shutdown => None,
                _ => Some(UiMessage::Error(failure_message(e))),
            }
        },
    }
}

/// An event the engine emitted, with its transfer already named by gid.
#[derive(Debug)]
pub enum EngineEvent {
    Progress { gid: String },
    Completed { gid: String },
    Failed { gid: String, error: String },
    Removed { gid: String },
    Other,
}

/// Whether an engine event, given the snapshot looked up for its transfer,
/// is forwarded.
pub open spec fn event_emits(event: EngineEvent, status: Option<EngineStatus>) -> bool {
    match event {
        EngineEvent::Progress { .. } => status is Some,
        EngineEvent::Completed { .. } => status is Some,
        EngineEvent::Failed { .. } => true,
        EngineEvent::Removed { .. } => false,
        EngineEvent::Other => false,
    }
}

/// The message an engine event is forwarded as.
pub open spec fn event_reply_rel(
    event: EngineEvent,
    status: Option<EngineStatus>,
    msg: UiMessage,
) -> bool {
    match event {
        EngineEvent::Progress { gid } => status is Some && msg is DownloadUpdated
            && msg->DownloadUpdated_0 == gid && is_converted(msg->DownloadUpdated_1, status->0),
        EngineEvent::Completed { .. } => status is Some && msg is DownloadCompleted
            && is_converted(msg->DownloadCompleted_0, status->0),
        EngineEvent::Failed { gid, error } => msg == UiMessage::DownloadFailed(gid, error),
        EngineEvent::Removed { .. } => false,
        EngineEvent::Other => false,
    }
}

/// Translate one engine event.  Progress and completion carry the fresh
/// snapshot (and are dropped when none could be fetched); a failure carries
/// its message; a removal was already answered by the command handler.
pub fn event_reply(event: EngineEvent, status: Option<EngineStatus>) -> (r: Option<UiMessage>)
    ensures
        r is Some <==> event_emits(event, status),
        r is Some ==> event_reply_rel(event, status, r->Some_0),
{
    match event {
        EngineEvent::Progress { gid } => {
            match status {
                Some(st) => Some(
                    UiMessage::DownloadUpdated(gid, crate::status::convert_status(st)),
                ),
                None => None,
            }
        },
        EngineEvent::Completed { gid: _ } => {
            match status {
                Some(st) => Some(UiMessage::DownloadCompleted(crate::status::convert_status(st))),
                None => None,
            }
        },
        EngineEvent::Failed { gid, error } => Some(UiMessage::DownloadFailed(gid, error)),
        EngineEvent::Removed { gid: _ } => None,
        EngineEvent::Other => None,
    }
}

// ---------------------------------------------------------------------------
// the control loop, one step at a time
// ---------------------------------------------------------------------------

/// One thing the loop's select woke up on: a command with what the engine
/// answered, or an engine event with the snapshot looked up for it.
#[derive(Debug)]
pub enum BridgeInput {
    Command(EngineCommand, CommandOutcome),
    Event(EngineEvent, Option<EngineStatus>),
}

pub open spec fn is_shutdown(input: BridgeInput) -> bool {
    match input {
        BridgeInput::Command(cmd, _) => cmd is Shutdown,
        BridgeInput::Event(..) => false,
    }
}

/// Whether processing this input emits a message.
pub open spec fn input_emits(input: BridgeInput) -> bool {
    match input {
        BridgeInput::Command(cmd, outcome) => command_emits(cmd, outcome),
        BridgeInput::Event(ev, st) => event_emits(ev, st),
    }
}

/// The message this input is answered with, where one is.
pub open spec fn input_reply_rel(input: BridgeInput, msg: UiMessage) -> bool {
    match input {
        BridgeInput::Command(cmd, outcome) => command_reply_rel(cmd, outcome, msg),
        BridgeInput::Event(ev, st) => event_reply_rel(ev, st, msg),
    }
}

/// One turn of the control loop: `false` back means the loop stops (a
/// shutdown command); otherwise the input's reply, if any, is emitted.
pub fn bridge_step(input: BridgeInput) -> (r: (bool, Option<UiMessage>))
    ensures
        r.0 == !is_shutdown(input),
        is_shutdown(input) ==> r.1 is None,
        !is_shutdown(input) ==> (r.1 is Some <==> input_emits(input)),
        r.1 is Some ==> input_reply_rel(input, r.1->Some_0),
{
    match input {
        BridgeInput::Command(cmd, outcome) => {
            match cmd {
                EngineCommand::Shutdown => (false, None),
                _ => (true, command_reply(&cmd, outcome)),
            }
        },
        BridgeInput::Event(ev, st) => (true, event_reply(ev, st)),
    }
}

/// How many of the first `n` inputs emit a message while the loop is still
/// running (inputs after a shutdown are never processed).
pub open spec fn emitted_before(inputs: Seq<BridgeInput>, n: int) -> int
    decreases n,
{
    if n <= 0 {
        0
    } else {
        emitted_before(inputs, n - 1) + (if live_at(inputs, n - 1) && input_emits(
            inputs[n - 1],
        ) && !is_shutdown(inputs[n - 1]) {
            1int
        } else {
            0int
        })
    }
}

/// The loop is still running when input `i` arrives: no earlier input was a
/// shutdown.
pub open spec fn live_at(inputs: Seq<BridgeInput>, i: int) -> bool {
    forall|j: int| 0 <= j < i ==> !is_shutdown(#[trigger] inputs[j])
}

/// Drain a batch of ready inputs through the loop, stopping at a shutdown.
///
/// The reply to the input at position `i` stands at output position
/// `emitted_before(inputs, i)`: replies appear exactly in the order their
/// inputs were processed.
#[verifier::rlimit(40)]
pub fn run_bridge(inputs: Vec<BridgeInput>) -> (out: Vec<UiMessage>)
    ensures
        out@.len() == emitted_before(inputs@, inputs@.len() as int),
        forall|i: int|
            0 <= i < inputs@.len() && live_at(inputs@, i) && input_emits(#[trigger] inputs@[i])
                && !is_shutdown(inputs@[i]) ==> input_reply_rel(
                inputs@[i],
                out@[emitted_before(inputs@, i)],
            ),
{
    let ghost iv = inputs@;
    let mut rest = inputs;
    let mut out: Vec<UiMessage> = Vec::new();
    let mut running = true;
    while rest.len() > 0
        invariant
            rest@.len() <= iv.len(),
            rest@ =~= iv.subrange(iv.len() - rest@.len(), iv.len() as int),
            running == live_at(iv, iv.len() - rest@.len()),
            out@.len() == emitted_before(iv, iv.len() - rest@.len()),
            forall|i: int|
                0 <= i < iv.len() - rest@.len() && live_at(iv, i) && input_emits(
                    #[trigger] iv[i],
                ) && !is_shutdown(iv[i]) ==> input_reply_rel(iv[i], out@[emitted_before(iv, i)]),
        decreases rest@.len(),
    {
        let ghost p = iv.len() - rest@.len();
        let input = rest.remove(0);
        proof {
            assert(input == iv[p]);
            assert(rest@ =~= iv.subrange(iv.len() - rest@.len(), iv.len() as int));
        }
        if running {
            let (still, msg) = bridge_step(input);
            running = still;
            match msg {
                Some(m) => {
                    proof {
                        assert(emitted_before(iv, p + 1) == emitted_before(iv, p) + 1);
                    }
                    let ghost old_out = out@;
                    out.push(m);
                    proof {
                        assert(input_reply_rel(iv[p], out@[emitted_before(iv, p)]));
                        assert forall|i: int|
                            0 <= i < p && live_at(iv, i) && input_emits(#[trigger] iv[i])
                                && !is_shutdown(iv[i]) implies input_reply_rel(
                            iv[i],
                            out@[emitted_before(iv, i)],
                        ) by {
                            assert(emitted_before(iv, i + 1) == emitted_before(iv, i) + 1);
                            lemma_emitted_monotone(iv, 0, i);
                            lemma_emitted_monotone(iv, i + 1, p);
                            assert(emitted_before(iv, i) < old_out.len());
                            assert(out@[emitted_before(iv, i)] == old_out[emitted_before(iv, i)]);
                        }
                    }
                },
                None => {
                    proof {
                        assert(emitted_before(iv, p + 1) == emitted_before(iv, p));
                    }
                },
            }
            proof {
                if is_shutdown(iv[p]) {
                    assert(!live_at(iv, p + 1));
                } else {
                    assert forall|j: int| 0 <= j < p + 1 implies !is_shutdown(
                        #[trigger] iv[j],
                    ) by {}
                }
            }
        } else {
            proof {
                assert(!live_at(iv, p));
                assert(!live_at(iv, p + 1)) by {
                    let j = choose|j: int| 0 <= j < p && is_shutdown(#[trigger] iv[j]);
                    assert(is_shutdown(iv[j]));
                }
                assert(emitted_before(iv, p + 1) == emitted_before(iv, p));
            }
        }
    }
    out
}

/// Replies keep command order: of two processed inputs that both emit, the
/// earlier one's reply stands earlier in the output.
pub proof fn lemma_bridge_ordering(inputs: Seq<BridgeInput>, i: int, j: int)
    requires
        0 <= i < j < inputs.len(),
        live_at(inputs, i) && input_emits(inputs[i]) && !is_shutdown(inputs[i]),
        live_at(inputs, j) && input_emits(inputs[j]) && !is_shutdown(inputs[j]),
    ensures
        emitted_before(inputs, i) < emitted_before(inputs, j),
    decreases j - i,
{
    if j == i + 1 {
        assert(emitted_before(inputs, j) == emitted_before(inputs, i) + 1);
    } else {
        lemma_emitted_monotone(inputs, i + 1, j);
        assert(emitted_before(inputs, i + 1) == emitted_before(inputs, i) + 1);
    }
}

proof fn lemma_emitted_monotone(inputs: Seq<BridgeInput>, a: int, b: int)
    requires
        a <= b,
    ensures
        emitted_before(inputs, a) <= emitted_before(inputs, b),
    decreases b - a,
{
    if a < b {
        lemma_emitted_monotone(inputs, a, b - 1);
    }
}

// ---------------------------------------------------------------------------
// front-end decisions
// ---------------------------------------------------------------------------

/// The add command for a pasted location: magnet links go to the magnet
/// handler, everything else is taken as an HTTP(S) URL.
pub fn command_for_url(url: String, options: Option<DownloadOptions>) -> (r: EngineCommand)
    ensures
        "magnet:"@.is_prefix_of(url@) ==> r == (EngineCommand::AddMagnet { uri: url, options }),
        !"magnet:"@.is_prefix_of(url@) ==> r == (EngineCommand::AddDownload { url, options }),
{
    if starts_with_str(url.as_str(), "magnet:") {
        EngineCommand::AddMagnet { uri: url, options }
    } else {
        EngineCommand::AddDownload { url, options }
    }
}

/// A record the restoration procedure re-submits: an HTTP transfer with its
/// source URL, or a magnet transfer with its link.  Torrents are skipped on
/// purpose (no torrent file bytes are persisted); FTP has no restoration
/// path.
pub open spec fn restorable(d: Download) -> bool {
    ||| (d.download_type == DownloadType::Http && d.url is Some)
    ||| (d.download_type == DownloadType::Magnet && d.magnet_uri is Some)
}

/// The command that re-submits a restorable record, without options, as the
/// original submission's options are not persisted.
pub open spec fn restore_cmd_rel(d: Download, cmd: EngineCommand) -> bool {
    if d.download_type == DownloadType::Http {
        cmd == (EngineCommand::AddDownload { url: d.url->0, options: None })
    } else {
        cmd == (EngineCommand::AddMagnet { uri: d.magnet_uri->0, options: None })
    }
}

/// How many of the first `n` records are restorable.
pub open spec fn restorable_before(rs: Seq<Download>, n: int) -> int
    decreases n,
{
    if n <= 0 {
        0
    } else {
        restorable_before(rs, n - 1) + (if restorable(rs[n - 1]) {
            1int
        } else {
            0int
        })
    }
}

proof fn lemma_restorable_monotone(rs: Seq<Download>, a: int, b: int)
    requires
        a <= b,
    ensures
        restorable_before(rs, a) <= restorable_before(rs, b),
    decreases b - a,
{
    if a < b {
        lemma_restorable_monotone(rs, a, b - 1);
    }
}

/// The commands that re-submit the restorable records of a list, in list
/// order: the command for record `i` stands at position
/// `restorable_before(records, i)`.
pub fn restoration_commands(records: &Vec<Download>) -> (out: Vec<EngineCommand>)
    ensures
        out@.len() == restorable_before(records@, records@.len() as int),
        forall|i: int|
            0 <= i < records@.len() && restorable(#[trigger] records@[i]) ==> restore_cmd_rel(
                records@[i],
                out@[restorable_before(records@, i)],
            ),
{
    let mut out: Vec<EngineCommand> = Vec::new();
    let mut i: usize = 0;
    while i < records.len()
        invariant
            0 <= i <= records@.len(),
            out@.len() == restorable_before(records@, i as int),
            forall|k: int|
                0 <= k < i && restorable(#[trigger] records@[k]) ==> restore_cmd_rel(
                    records@[k],
                    out@[restorable_before(records@, k)],
                ),
        decreases records@.len() - i,
    {
        let d = &records[i];
        let keep: Option<EngineCommand> = match d.download_type {
            DownloadType::Http => {
                match &d.url {
                    Some(url) => Some(
                        EngineCommand::AddDownload { url: url.clone(), options: None },
                    ),
                    None => None,
                }
            },
            DownloadType::Magnet => {
                match &d.magnet_uri {
                    Some(uri) => Some(EngineCommand::AddMagnet { uri: uri.clone(), options: None }),
                    None => None,
                }
            },
            _ => None,
        };
        proof {
            assert(restorable_before(records@, i as int + 1) == restorable_before(
                records@,
                i as int,
            ) + (if restorable(records@[i as int]) {
                1int
            } else {
                0int
            }));
        }
        match keep {
            Some(cmd) => {
                let ghost old_out = out@;
                out.push(cmd);
                proof {
                    assert(restorable(records@[i as int]));
                    assert(restore_cmd_rel(
                        records@[i as int],
                        out@[restorable_before(records@, i as int)],
                    ));
                    assert forall|k: int|
                        0 <= k < i && restorable(#[trigger] records@[k]) implies restore_cmd_rel(
                        records@[k],
                        out@[restorable_before(records@, k)],
                    ) by {
                        assert(restorable_before(records@, k + 1) == restorable_before(
                            records@,
                            k,
                        ) + 1);
                        lemma_restorable_monotone(records@, 0, k);
                        lemma_restorable_monotone(records@, k + 1, i as int);
                        assert(restorable_before(records@, k) < old_out.len());
                        assert(out@[restorable_before(records@, k)] == old_out[restorable_before(
                            records@,
                            k,
                        )]);
                    }
                }
            },
            None => {
                proof {
                    assert(!restorable(records@[i as int]));
                }
            },
        }
        i += 1;
    }
    out
}

// ---------------------------------------------------------------------------
// front-end state
// ---------------------------------------------------------------------------

/// The in-memory picture a front end keeps of the engine: live transfers,
/// finished ones (newest first), and the session counters.  It is eventually
/// consistent with the engine; a full listing replaces it wholesale.
#[derive(Debug)]
pub struct UiState {
    pub downloads: Vec<Download>,
    pub completed: Vec<Download>,
    pub stats: GlobalStats,
}

/// `new` replaces the record stored under `key` — the first one, were there
/// ever several — or appends when none is.
pub open spec fn upsert_rel(
    old_s: Seq<Download>,
    new_s: Seq<Download>,
    key: Seq<char>,
    d: Download,
) -> bool {
    if crate::store::has_gid(old_s, key) {
        exists|i: int|
            0 <= i < old_s.len() && (#[trigger] old_s[i]).gid@ == key && (forall|j: int|
                0 <= j < i ==> (#[trigger] old_s[j]).gid@ != key) && new_s == old_s.update(i, d)
    } else {
        new_s == old_s.push(d)
    }
}

/// `new` lacks the record stored under `key` (the first one, were there
/// ever several); nothing else moved.
pub open spec fn remove_first_rel(old_s: Seq<Download>, new_s: Seq<Download>, key: Seq<char>) -> bool {
    if crate::store::has_gid(old_s, key) {
        exists|i: int|
            0 <= i < old_s.len() && (#[trigger] old_s[i]).gid@ == key && (forall|j: int|
                0 <= j < i ==> (#[trigger] old_s[j]).gid@ != key) && new_s == old_s.remove(i)
    } else {
        new_s == old_s
    }
}

fn upsert_download(downloads: &mut Vec<Download>, key: &str, d: Download)
    ensures
        upsert_rel(old(downloads)@, final(downloads)@, key@, d),
{
    let mut i: usize = 0;
    while i < downloads.len()
        invariant
            0 <= i <= downloads@.len(),
            downloads@ == old(downloads)@,
            forall|j: int| 0 <= j < i ==> (#[trigger] downloads@[j]).gid@ != key@,
        decreases downloads@.len() - i,
    {
        if crate::text::eq_str(downloads[i].gid.as_str(), key) {
            downloads[i] = d;
            proof {
                assert((old(downloads)@[i as int]).gid@ == key@);
                assert(crate::store::has_gid(old(downloads)@, key@));
            }
            return ;
        }
        i += 1;
    }
    proof {
        if crate::store::has_gid(downloads@, key@) {
            let j = choose|j: int|
                0 <= j < downloads@.len() && (#[trigger] downloads@[j]).gid@ == key@;
            assert(false);
        }
    }
    downloads.push(d);
}

fn remove_download(downloads: &mut Vec<Download>, key: &str)
    ensures
        remove_first_rel(old(downloads)@, final(downloads)@, key@),
{
    let mut i: usize = 0;
    while i < downloads.len()
        invariant
            0 <= i <= downloads@.len(),
            downloads@ == old(downloads)@,
            forall|j: int| 0 <= j < i ==> (#[trigger] downloads@[j]).gid@ != key@,
        decreases downloads@.len() - i,
    {
        if crate::text::eq_str(downloads[i].gid.as_str(), key) {
            proof {
                assert((downloads@[i as int]).gid@ == key@);
                assert(crate::store::has_gid(downloads@, key@));
            }
            downloads.remove(i);
            return ;
        }
        i += 1;
    }
    proof {
        if crate::store::has_gid(downloads@, key@) {
            let j = choose|j: int|
                0 <= j < downloads@.len() && (#[trigger] downloads@[j]).gid@ == key@;
            assert(false);
        }
    }
}

impl UiState {
    pub fn new() -> (r: UiState)
        ensures
            r.downloads@.len() == 0,
            r.completed@.len() == 0,
            r.stats.download_speed == 0 && r.stats.upload_speed == 0 && r.stats.num_active == 0
                && r.stats.num_waiting == 0 && r.stats.num_stopped == 0,
    {
        UiState { downloads: Vec::new(), completed: Vec::new(), stats: GlobalStats::default() }
    }
}

/// Fold one bridge message into the front end's picture: added and updated
/// records are stored under their gid, a removal forgets its record, a
/// completion moves the record to the front of the finished list, counters
/// replace the old ones, a full listing replaces the live set wholesale;
/// everything else changes nothing.
pub fn handle_ui_message(state: &mut UiState, msg: UiMessage)
    ensures
        (match msg {
            UiMessage::DownloadAdded(d) => upsert_rel(
                old(state).downloads@,
                final(state).downloads@,
                d.gid@,
                d,
            ) && final(state).completed == old(state).completed && final(state).stats == old(state).stats,
            UiMessage::DownloadUpdated(gid, d) => upsert_rel(
                old(state).downloads@,
                final(state).downloads@,
                gid@,
                d,
            ) && final(state).completed == old(state).completed && final(state).stats == old(state).stats,
            UiMessage::DownloadRemoved(gid) => remove_first_rel(
                old(state).downloads@,
                final(state).downloads@,
                gid@,
            ) && final(state).completed == old(state).completed && final(state).stats == old(state).stats,
            UiMessage::DownloadCompleted(d) => remove_first_rel(
                old(state).downloads@,
                final(state).downloads@,
                d.gid@,
            ) && final(state).completed@ == seq![d] + old(state).completed@ && final(state).stats
                == old(state).stats,
            UiMessage::StatsUpdated(s) => final(state).stats == s && final(state).downloads == old(state).downloads && final(state).completed == old(state).completed,
            UiMessage::DownloadsList(list) => final(state).downloads == list && final(state).completed == old(state).completed && final(state).stats == old(state).stats,
            _ => *final(state) == *old(state),
        }),
{
    match msg {
        UiMessage::DownloadAdded(d) => {
            let key = d.gid.clone();
            upsert_download(&mut state.downloads, key.as_str(), d);
        },
        UiMessage::DownloadUpdated(gid, d) => {
            upsert_download(&mut state.downloads, gid.as_str(), d);
        },
        UiMessage::DownloadRemoved(gid) => {
            remove_download(&mut state.downloads, gid.as_str());
        },
        UiMessage::DownloadCompleted(d) => {
            let key = d.gid.clone();
            remove_download(&mut state.downloads, key.as_str());
            state.completed.insert(0, d);
            proof {
                assert(state.completed@ =~= seq![d] + old(state).completed@);
            }
        },
        UiMessage::StatsUpdated(s) => {
            state.stats = s;
        },
        UiMessage::DownloadsList(list) => {
            state.downloads = list;
        },
        UiMessage::DownloadFailed(_, _) => {},
        UiMessage::Error(_) => {},
        UiMessage::EngineReady => {},
    }
}

} // verus!
