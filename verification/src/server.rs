//! The server loop's decisions: its run/stop state machine, and the
//! dispatch of one control-channel exchange.
//!
//! The worker thread, the transport, and the operating-system calls live
//! in the embedding application. Dispatch is therefore split in two: for
//! one received message, [`handle_message`] decodes and decides, and
//! either answers outright or names the one outside action the command
//! needs (launch, poll, kill, reload); the application performs it and
//! hands the outcome to the matching `finish_*` function, which yields the
//! response text. Every response the protocol can produce is fixed here,
//! character for character.

use vstd::prelude::*;

verus! {

use vstd::string::StringExecFns;
use vstd::string::StrSliceExecFns;
use vstd::utf8::encode_utf8;
use crate::config::Registry;
use crate::config::Config;
use crate::config::Service;
use crate::config::ServiceType;
use crate::config::ParseOutcome;
use crate::config::configs_of;
use crate::config::first_error;
use crate::process::Supervisor;
use crate::process::LaunchOutcome;
use crate::process::PollOutcome;
use crate::process::KillOutcome;
use crate::process::spec_spawn;
use crate::process::spec_check;
use crate::process::spec_stop;
use crate::protocol::Request;
use crate::protocol::decode;
use crate::protocol::decodes_to;
use crate::protocol::spec_encode;
use crate::protocol::MAX_FRAME;
use crate::protocol::lemma_encode_injective;
use crate::text::bytes_eq;

// ---------------------------------------------------------------------
// Response texts
// ---------------------------------------------------------------------

pub open spec fn no_command_text() -> Seq<char> {
    "No command provided."@
}

pub open spec fn parse_fail_text() -> Seq<char> {
    "Failed to parse command: unrecognized request frame"@
}

pub open spec fn start_ok_text(name: Seq<char>) -> Seq<char> {
    "Service `"@ + name + "` started successfully."@
}

pub open spec fn start_fail_text(name: Seq<char>, e: crate::process::Error) -> Seq<char> {
    "Failed to start service `"@ + name + "`: "@ + e.spec_text()
}

pub open spec fn cannot_find_text(name: Seq<char>) -> Seq<char> {
    "Cannot Find Service `"@ + name + "`"@
}

pub open spec fn stop_ok_text(name: Seq<char>) -> Seq<char> {
    "Service `"@ + name + "` stopped successfully."@
}

pub open spec fn stop_fail_text(name: Seq<char>, e: crate::process::Error) -> Seq<char> {
    "Failed to stop service `"@ + name + "`: "@ + e.spec_text()
}

pub open spec fn status_missing_text(name: Seq<char>) -> Seq<char> {
    "Failed to get config for service `"@ + name + "`"@
}

pub open spec fn style_text(style: ServiceType) -> Seq<char> {
    match style {
        ServiceType::Simple => "Simple"@,
        ServiceType::Startup => "Startup"@,
    }
}

pub open spec fn liveness_text(live: Result<(), crate::process::Error>) -> Seq<char> {
    match live {
        Ok(_) => "Running"@,
        Err(e) => e.spec_text(),
    }
}

/// The status report: name, description (or a stand-in), startup style,
/// and liveness.
pub open spec fn status_text(
    name: Seq<char>,
    cfg: Config,
    live: Result<(), crate::process::Error>,
) -> Seq<char> {
    name + " - "@ + (match cfg.unit.description {
        Some(d) => d@,
        None => "Not provided description"@,
    }) + "\n\n"@ + "Type   :"@ + style_text(cfg.service.style) + " \n"@ + "Status :"@
        + liveness_text(live)
}

/// The reply to `Start` once the launch outcome is in.
pub open spec fn launch_reply_text(name: Seq<char>, r: Result<(), crate::process::Error>) -> Seq<
    char,
> {
    match r {
        Ok(_) => start_ok_text(name),
        Err(e) => start_fail_text(name, e),
    }
}

/// The reply to `Stop` once the kill outcome is in.
pub open spec fn kill_reply_text(name: Seq<char>, outcome: KillOutcome) -> Seq<char> {
    match outcome {
        KillOutcome::Killed => stop_ok_text(name),
        KillOutcome::KillFailed(m) => stop_fail_text(name, crate::process::Error::IoError(m)),
    }
}

/// The reply to `ReloadConfig` once the registry has decided.
pub open spec fn reload_reply_text(err: Option<crate::config::Error>) -> Seq<char> {
    match err {
        None => "Configuration reloaded successfully."@,
        Some(e) => "Error reloading configuration: "@ + e.spec_text(),
    }
}

// ---------------------------------------------------------------------
// One exchange: decide, act outside, finish
// ---------------------------------------------------------------------

/// What dispatch decided for one message: a finished reply, or the one
/// outside action the command needs before its reply can be rendered.
pub enum Step<'a> {
    /// The response is complete; send it.
    Reply(String),
    /// Launch a child for `name` from this invocation; then call
    /// [`finish_launch`].
    Launch { name: String, service: &'a Service },
    /// Poll the liveness of `name`'s child; then call [`finish_poll`].
    Poll { name: String, handle: u64 },
    /// Kill `name`'s child — already untracked — and await its exit; then
    /// call [`finish_kill`].
    Kill { name: String, handle: u64 },
    /// Re-read the config directory; then call [`finish_reload`].
    Reload,
}

/// The shape of a [`Step`], with the name as its characters.
pub enum StepView {
    Reply(Seq<char>),
    Launch { name: Seq<char> },
    Poll { name: Seq<char>, handle: u64 },
    Kill { name: Seq<char>, handle: u64 },
    Reload,
}

pub open spec fn step_view<'a>(step: Step<'a>) -> StepView {
    match step {
        Step::Reply(t) => StepView::Reply(t@),
        Step::Launch { name, service } => StepView::Launch { name: name@ },
        Step::Poll { name, handle } => StepView::Poll { name: name@, handle },
        Step::Kill { name, handle } => StepView::Kill { name: name@, handle },
        Step::Reload => StepView::Reload,
    }
}

/// What dispatch decides, given the registry's and the supervisor's
/// mappings: the supervisor mapping afterwards, and the step taken.
/// `Stop` is the one command that moves the mapping here — the entry
/// leaves the table before the kill is even attempted.
pub open spec fn spec_dispatch(
    regm: Map<Seq<char>, Config>,
    supm: Map<Seq<char>, u64>,
    req: Request,
) -> (Map<Seq<char>, u64>, StepView) {
    match req {
        Request::NoCommand => (supm, StepView::Reply(no_command_text())),
        Request::Reload => (supm, StepView::Reload),
        Request::Start(name) => if !regm.contains_key(name@) {
            (supm, StepView::Reply(cannot_find_text(name@)))
        } else if supm.contains_key(name@) {
            (
                supm,
                StepView::Reply(
                    start_fail_text(name@, crate::process::Error::ProcessAlreadyRunning),
                ),
            )
        } else {
            (supm, StepView::Launch { name: name@ })
        },
        Request::Stop(name) => if supm.contains_key(name@) {
            (spec_stop(supm, name@).0, StepView::Kill { name: name@, handle: supm[name@] })
        } else {
            (supm, StepView::Reply(stop_fail_text(name@, crate::process::Error::ProcessNotFound)))
        },
        Request::Status(name) => if !regm.contains_key(name@) {
            (supm, StepView::Reply(status_missing_text(name@)))
        } else if !supm.contains_key(name@) {
            (
                supm,
                StepView::Reply(
                    status_text(name@, regm[name@], Err(crate::process::Error::ProcessNotFound)),
                ),
            )
        } else {
            (supm, StepView::Poll { name: name@, handle: supm[name@] })
        },
    }
}

/// What one whole message comes to: an undecodable frame draws the
/// parse-failure reply and changes nothing; a decodable one is dispatched.
pub open spec fn spec_handle_message(
    regm: Map<Seq<char>, Config>,
    supm: Map<Seq<char>, u64>,
    msg: Seq<u8>,
) -> (Map<Seq<char>, u64>, StepView) {
    if exists|req: Request| decodes_to(msg, req) {
        spec_dispatch(regm, supm, choose|req: Request| decodes_to(msg, req))
    } else {
        (supm, StepView::Reply(parse_fail_text()))
    }
}

/// Dispatch depends on a request only through its command and the
/// characters of its name, so any two requests with the same frame are
/// dispatched alike.
proof fn lemma_dispatch_congruence(
    regm: Map<Seq<char>, Config>,
    supm: Map<Seq<char>, u64>,
    r1: Request,
    r2: Request,
)
    requires
        spec_encode(r1) == spec_encode(r2),
    ensures
        spec_dispatch(regm, supm, r1) == spec_dispatch(regm, supm, r2),
{
    lemma_encode_injective(r1, r2);
    match (r1, r2) {
        (Request::Start(n1), Request::Start(n2)) => {
            assert(n1@ == n2@);
        },
        (Request::Stop(n1), Request::Stop(n2)) => {
            assert(n1@ == n2@);
        },
        (Request::Status(n1), Request::Status(n2)) => {
            assert(n1@ == n2@);
        },
        _ => {},
    }
}

/// A frame within the bound is handled exactly as the request it encodes:
/// the framing adds nothing and loses nothing on the way to dispatch.
pub proof fn lemma_message_faithful(
    regm: Map<Seq<char>, Config>,
    supm: Map<Seq<char>, u64>,
    req: Request,
)
    requires
        spec_encode(req).len() <= MAX_FRAME,
    ensures
        spec_handle_message(regm, supm, spec_encode(req)) == spec_dispatch(regm, supm, req),
{
    let msg = spec_encode(req);
    assert(decodes_to(msg, req));
    let chosen = choose|r: Request| decodes_to(msg, r);
    lemma_dispatch_congruence(regm, supm, chosen, req);
}

// ---------------------------------------------------------------------
// Renderers
// ---------------------------------------------------------------------

/// `prefix`, then `mid`, then `suffix`.
fn wrap3(prefix: &str, mid: &str, suffix: &str) -> (r: String)
    ensures
        r@ == prefix@ + mid@ + suffix@,
{
    let mut s = prefix.to_owned();
    s.append(mid);
    s.append(suffix);
    s
}

fn render_start_fail(name: &str, e: &crate::process::Error) -> (r: String)
    ensures
        r@ == start_fail_text(name@, *e),
{
    let mut s = "Failed to start service `".to_owned();
    s.append(name);
    s.append("`: ");
    let t = e.text();
    s.append(t.as_str());
    s
}

fn render_stop_fail(name: &str, e: &crate::process::Error) -> (r: String)
    ensures
        r@ == stop_fail_text(name@, *e),
{
    let mut s = "Failed to stop service `".to_owned();
    s.append(name);
    s.append("`: ");
    let t = e.text();
    s.append(t.as_str());
    s
}

fn render_status(name: &str, cfg: &Config, live: Result<(), crate::process::Error>) -> (r: String)
    ensures
        r@ == status_text(name@, *cfg, live),
{
    let mut s = name.to_owned();
    s.append(" - ");
    match &cfg.unit.description {
        Some(d) => s.append(d.as_str()),
        None => s.append("Not provided description"),
    }
    s.append("\n\n");
    s.append("Type   :");
    match cfg.service.style {
        ServiceType::Simple => s.append("Simple"),
        ServiceType::Startup => s.append("Startup"),
    }
    s.append(" \n");
    s.append("Status :");
    match live {
        Ok(_) => s.append("Running"),
        Err(e) => {
            let t = e.text();
            s.append(t.as_str());
        },
    }
    s
}

// ---------------------------------------------------------------------
// Dispatch
// ---------------------------------------------------------------------

/// Decides one decoded request against the registry and the supervisor.
pub fn handle_request<'a>(reg: &'a Registry, sup: &mut Supervisor, req: &Request) -> (step: Step<
    'a,
>)
    requires
        old(sup).wf(),
    ensures
        final(sup).wf(),
        final(sup).map_view() == spec_dispatch(reg.map_view(), old(sup).map_view(), *req).0,
        step_view(step) == spec_dispatch(reg.map_view(), old(sup).map_view(), *req).1,
        (step matches Step::Launch { name, service } ==> reg.map_view().contains_key(name@)
            && *service == reg.map_view()[name@].service),
{
    match req {
        Request::NoCommand => Step::Reply("No command provided.".to_owned()),
        Request::Reload => Step::Reload,
        Request::Start(name) => match reg.get(name.as_str()) {
            None => Step::Reply(wrap3("Cannot Find Service `", name.as_str(), "`")),
            Some(cfg) => {
                if sup.contains(name.as_str()) {
                    Step::Reply(
                        render_start_fail(
                            name.as_str(),
                            &crate::process::Error::ProcessAlreadyRunning,
                        ),
                    )
                } else {
                    Step::Launch { name: name.clone(), service: &cfg.service }
                }
            },
        },
        Request::Stop(name) => match sup.stop(name.as_str()) {
            Ok(handle) => Step::Kill { name: name.clone(), handle },
            Err(e) => Step::Reply(render_stop_fail(name.as_str(), &e)),
        },
        Request::Status(name) => match reg.get(name.as_str()) {
            None => Step::Reply(wrap3("Failed to get config for service `", name.as_str(), "`")),
            Some(cfg) => match sup.get(name.as_str()) {
                Ok(handle) => Step::Poll { name: name.clone(), handle },
                Err(_) => Step::Reply(
                    render_status(
                        name.as_str(),
                        cfg,
                        Err(crate::process::Error::ProcessNotFound),
                    ),
                ),
            },
        },
    }
}

/// Handles one received message: decodes it and dispatches, or settles on
/// the parse-failure reply — a malformed payload never fails harder.
pub fn handle_message<'a>(reg: &'a Registry, sup: &mut Supervisor, msg: &[u8]) -> (step: Step<'a>)
    requires
        old(sup).wf(),
    ensures
        final(sup).wf(),
        final(sup).map_view() == spec_handle_message(
            reg.map_view(),
            old(sup).map_view(),
            msg@,
        ).0,
        step_view(step) == spec_handle_message(reg.map_view(), old(sup).map_view(), msg@).1,
        (step matches Step::Launch { name, service } ==> reg.map_view().contains_key(name@)
            && *service == reg.map_view()[name@].service),
{
    match decode(msg) {
        Some(req) => {
            proof {
                let chosen = choose|r: Request| decodes_to(msg@, r);
                lemma_dispatch_congruence(reg.map_view(), sup.map_view(), chosen, req);
            }
            handle_request(reg, sup, &req)
        },
        None => Step::Reply("Failed to parse command: unrecognized request frame".to_owned()),
    }
}

// ---------------------------------------------------------------------
// Finishing an exchange after the outside action
// ---------------------------------------------------------------------

/// Records the launch outcome for a `Start` and renders the reply.
pub fn finish_launch(sup: &mut Supervisor, name: &str, outcome: LaunchOutcome) -> (r: String)
    requires
        old(sup).wf(),
    ensures
        final(sup).wf(),
        final(sup).map_view() == spec_spawn(old(sup).map_view(), name@, outcome).0,
        r@ == launch_reply_text(name@, spec_spawn(old(sup).map_view(), name@, outcome).1),
{
    match sup.spawn(name, outcome) {
        Ok(_) => wrap3("Service `", name, "` started successfully."),
        Err(e) => render_start_fail(name, &e),
    }
}

/// Renders the status report for a `Status` from the poll outcome.
pub fn finish_poll(reg: &Registry, sup: &Supervisor, name: &str, poll: PollOutcome) -> (r: String)
    requires
        sup.wf(),
    ensures
        r@ == (if reg.map_view().contains_key(name@) {
            status_text(
                name@,
                reg.map_view()[name@],
                spec_check(sup.map_view(), name@, poll),
            )
        } else {
            status_missing_text(name@)
        }),
{
    match reg.get(name) {
        None => wrap3("Failed to get config for service `", name, "`"),
        Some(cfg) => {
            let live = sup.check(name, poll);
            render_status(name, cfg, live)
        },
    }
}

/// Renders the reply for a `Stop` from the kill outcome.
pub fn finish_kill(name: &str, outcome: KillOutcome) -> (r: String)
    ensures
        r@ == kill_reply_text(name@, outcome),
{
    match outcome {
        KillOutcome::Killed => wrap3("Service `", name, "` stopped successfully."),
        KillOutcome::KillFailed(m) => render_stop_fail(name, &crate::process::Error::IoError(m)),
    }
}

/// Loads the reload batch into the registry and renders the reply.
pub fn finish_reload(reg: &mut Registry, files: Vec<ParseOutcome>) -> (r: String)
    ensures
        r@ == reload_reply_text(first_error(files@)),
        first_error(files@) is None ==> final(reg).units_seq() == configs_of(files@),
        first_error(files@) is Some ==> final(reg).units_seq() == old(reg).units_seq(),
{
    match reg.load(files) {
        Ok(_) => "Configuration reloaded successfully.".to_owned(),
        Err(e) => {
            let mut s = "Error reloading configuration: ".to_owned();
            let t = e.text();
            s.append(t.as_str());
            s
        },
    }
}

// ---------------------------------------------------------------------
// Boot and shutdown
// ---------------------------------------------------------------------

/// Boot's registry load: a failed batch keeps the previous snapshot, and
/// boot proceeds over whatever snapshot stands. Afterwards the
/// application walks `startup_at` and launches each yielded unit.
pub fn server_init(reg: &mut Registry, files: Vec<ParseOutcome>) -> (ok: bool)
    ensures
        ok == (first_error(files@) is None),
        ok ==> final(reg).units_seq() == configs_of(files@),
        !ok ==> final(reg).units_seq() == old(reg).units_seq(),
{
    match reg.load(files) {
        Ok(_) => true,
        Err(_) => false,
    }
}

/// The out-of-band shutdown endpoint's decision: only the exact `stop`
/// message stops the server, and either way the sender learns which.
pub fn stop_signal_reply(msg: &[u8]) -> (r: (bool, Vec<u8>))
    ensures
        r.0 == (msg@ == encode_utf8("stop"@)),
        r.1@ == (if msg@ == encode_utf8("stop"@) {
            encode_utf8("Service stopped"@)
        } else {
            encode_utf8("Unknown command"@)
        }),
{
    if bytes_eq(msg, "stop".as_bytes()) {
        (true, "Service stopped".as_bytes_vec())
    } else {
        (false, "Unknown command".as_bytes_vec())
    }
}

// ---------------------------------------------------------------------
// The run/stop state machine
// ---------------------------------------------------------------------

/// The server's worker bookkeeping: the token of the running worker
/// thread, if any, and whether shutdown of that worker has been
/// requested. The token names a join handle the application holds.
#[derive(Debug, Clone, Copy, PartialEq, Eq, Structural)]
pub struct Server {
    pub worker: Option<u64>,
    pub stop_requested: bool,
}

/// What `run` does: with a worker already running it is a no-op;
/// otherwise the offered worker is installed and any standing shutdown
/// request is cleared, so a stopped server can serve again.
pub open spec fn spec_run(s: Server, worker: u64) -> (Server, bool) {
    match s.worker {
        Some(_) => (s, false),
        None => (Server { worker: Some(worker), stop_requested: false }, true),
    }
}

/// What `stop` does: with no worker running it is a no-op; otherwise
/// shutdown is requested and the worker is surrendered for joining.
pub open spec fn spec_shutdown(s: Server) -> (Server, Option<u64>) {
    match s.worker {
        None => (s, None),
        Some(w) => (Server { worker: None, stop_requested: true }, Some(w)),
    }
}

impl Server {
    /// An idle server: no worker, no shutdown requested.
    pub fn new() -> (s: Server)
        ensures
            s.worker is None,
            !s.stop_requested,
    {
        Server { worker: None, stop_requested: false }
    }

    /// Starts serving: installs the offered worker token unless one is
    /// already installed, clearing any standing shutdown request. The
    /// application spawns the worker thread only when this returns true,
    /// so the worker count never passes one.
    pub fn run(&mut self, worker: u64) -> (started: bool)
        ensures
            *final(self) == spec_run(*old(self), worker).0,
            started == spec_run(*old(self), worker).1,
    {
        if self.worker.is_some() {
            false
        } else {
            self.worker = Some(worker);
            self.stop_requested = false;
            true
        }
    }

    /// Requests shutdown and surrenders the worker token. The caller
    /// unparks the accept loop (a `NoCommand` frame on the primary
    /// endpoint) and joins the surrendered worker before reporting the
    /// server stopped, so that return means full quiescence. Stopping a
    /// server that is not running changes nothing at all.
    pub fn stop(&mut self) -> (worker: Option<u64>)
        ensures
            *final(self) == spec_shutdown(*old(self)).0,
            worker == spec_shutdown(*old(self)).1,
    {
        match self.worker {
            None => None,
            Some(w) => {
                self.stop_requested = true;
                self.worker = None;
                Some(w)
            },
        }
    }

    /// Whether the worker should serve another exchange: it re-checks
    /// this between connections.
    pub fn should_serve(&self) -> (r: bool)
        ensures
            r == !self.stop_requested,
    {
        !self.stop_requested
    }

    /// Whether a worker is installed.
    pub fn is_running(&self) -> (r: bool)
        ensures
            r == (self.worker is Some),
    {
        self.worker.is_some()
    }
}

/// Running twice is idempotent: after any `run` a worker is installed, so
/// a second `run` changes nothing and starts nothing — the worker count
/// stays one.
pub proof fn lemma_run_idempotent(s: Server, w1: u64, w2: u64)
    ensures
        spec_run(s, w1).0.worker is Some,
        spec_run(spec_run(s, w1).0, w2).0 == spec_run(s, w1).0,
        !spec_run(spec_run(s, w1).0, w2).1,
{
}

/// Stopping a server that is not running is a no-op: the state is left
/// exactly as it was, and there is no worker to surrender or join.
pub proof fn lemma_stop_idle(s: Server)
    requires
        s.worker is None,
    ensures
        spec_shutdown(s).0 == s,
        spec_shutdown(s).1 is None,
{
}

/// After `stop` on a running server, shutdown stands requested and no
/// worker remains installed: the loop's own gate (`should_serve`)
/// refuses further exchanges, and once the caller joins the surrendered
/// worker nothing serves them.
pub proof fn lemma_stop_quiesces(s: Server)
    requires
        s.worker is Some,
    ensures
        spec_shutdown(s).0.stop_requested,
        spec_shutdown(s).0.worker is None,
{
}

/// A stopped server is not stopped for good: the next `run` installs a
/// fresh worker and clears the standing shutdown request, so the loop's
/// gate lets it serve.
pub proof fn lemma_stop_then_run_serves(s: Server, w: u64)
    ensures
        spec_run(spec_shutdown(s).0, w).1,
        spec_run(spec_shutdown(s).0, w).0.worker == Some(w),
        !spec_run(spec_shutdown(s).0, w).0.stop_requested,
{
}

} // verus!
