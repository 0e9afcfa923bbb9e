//! The decisions of the ASIO backend. The driver lives on a worker of its
//! own, which takes commands and answers each; what the worker does with a
//! command depends only on whether a driver is loaded and playing, so it
//! is a state machine here: an event (a command, or the result of driver
//! work it asked for) gives the next state and the actions to perform, in
//! order. Driving the driver itself is left to the caller.

use vstd::prelude::*;

use crate::devices::{
    asio_format_name, spec_asio_format_name, AsioCommand, AsioResponse, CommandView, OutputError,
    ResponseView, SampleFormat,
};
use crate::tags::{push_signed_decimal, signed_decimal};
use crate::text::{
    decimal, push_chars, push_padded_decimal, push_str, str_chars, str_eq, string_from_chars,
    zero_pad,
};

verus! {

/// What the ASIO worker knows about its driver.
#[derive(Debug, Clone, Copy, PartialEq, Eq, Structural)]
pub struct AsioWorkerState {
    /// A driver is loaded, its streams prepared and its callback set.
    pub driver_loaded: bool,
    /// The loaded driver is playing.
    pub is_playing: bool,
    /// The worker still takes commands.
    pub running: bool,
}

impl AsioWorkerState {
    /// Only a loaded driver plays.
    pub open spec fn wf(self) -> bool {
        self.is_playing ==> self.driver_loaded
    }

    /// A worker that has just started: no driver, taking commands.
    pub fn new() -> (r: Self)
        ensures
            r == (AsioWorkerState { driver_loaded: false, is_playing: false, running: true }),
            r.wf(),
    {
        AsioWorkerState { driver_loaded: false, is_playing: false, running: true }
    }
}

/// Work the worker performs on its driver, or an answer it sends.
pub enum WorkerAction {
    StopDriver,
    RemoveCallback,
    DisposeBuffers,
    ReleaseDriver,
    /// Load a driver, set its rate, find its sample format and prepare its
    /// output stream; the result comes back as [`WorkerEvent::LoadFinished`].
    LoadDriver { driver_name: String, sample_rate: u32, channels: u16 },
    /// Start the driver; the result comes back as
    /// [`WorkerEvent::StartFinished`].
    StartDriver,
    OpenControlPanel,
    Respond(AsioResponse),
    /// Leave the command loop.
    Exit,
}

/// The content of a worker action.
pub enum ActionView {
    StopDriver,
    RemoveCallback,
    DisposeBuffers,
    ReleaseDriver,
    LoadDriver { driver_name: Seq<char>, sample_rate: u32, channels: u16 },
    StartDriver,
    OpenControlPanel,
    Respond(ResponseView),
    Exit,
}

impl View for WorkerAction {
    type V = ActionView;

    open spec fn view(&self) -> ActionView {
        match self {
            WorkerAction::StopDriver => ActionView::StopDriver,
            WorkerAction::RemoveCallback => ActionView::RemoveCallback,
            WorkerAction::DisposeBuffers => ActionView::DisposeBuffers,
            WorkerAction::ReleaseDriver => ActionView::ReleaseDriver,
            WorkerAction::LoadDriver { driver_name, sample_rate, channels } =>
                ActionView::LoadDriver {
                driver_name: driver_name@,
                sample_rate: *sample_rate,
                channels: *channels,
            },
            WorkerAction::StartDriver => ActionView::StartDriver,
            WorkerAction::OpenControlPanel => ActionView::OpenControlPanel,
            WorkerAction::Respond(r) => ActionView::Respond(r@),
            WorkerAction::Exit => ActionView::Exit,
        }
    }
}

/// What happens to the worker: a command arrives, or driver work it asked
/// for has finished (with the driver's error text on failure).
pub enum WorkerEvent {
    Command(AsioCommand),
    /// Buffer size, sample format and actual rate of the loaded driver.
    LoadFinished(Result<(i32, SampleFormat, u32), String>),
    StartFinished(Result<(), String>),
}

/// The content of a worker event.
pub enum EventView {
    Command(CommandView),
    LoadFinished(Result<(i32, SampleFormat, u32), Seq<char>>),
    StartFinished(Result<(), Seq<char>>),
}

impl View for WorkerEvent {
    type V = EventView;

    open spec fn view(&self) -> EventView {
        match self {
            WorkerEvent::Command(c) => EventView::Command(c@),
            WorkerEvent::LoadFinished(r) => EventView::LoadFinished(
                match r {
                    Ok(v) => Ok(*v),
                    Err(m) => Err(m@),
                },
            ),
            WorkerEvent::StartFinished(r) => EventView::StartFinished(
                match r {
                    Ok(v) => Ok(*v),
                    Err(m) => Err(m@),
                },
            ),
        }
    }
}

/// The answer to a command that needs a driver when none is loaded.
pub open spec fn no_driver_text() -> Seq<char> {
    "No driver loaded"@
}

/// Releasing the driver: stop it if it plays, then remove its callback,
/// dispose of its buffers and let it go.
pub open spec fn spec_teardown(s: AsioWorkerState) -> Seq<ActionView> {
    (if s.is_playing && s.driver_loaded {
        seq![ActionView::StopDriver]
    } else {
        Seq::empty()
    }) + (if s.driver_loaded {
        seq![ActionView::RemoveCallback, ActionView::DisposeBuffers, ActionView::ReleaseDriver]
    } else {
        Seq::empty()
    })
}

/// The state without a driver.
pub open spec fn released(s: AsioWorkerState) -> AsioWorkerState {
    AsioWorkerState { driver_loaded: false, is_playing: false, running: s.running }
}

/// The next state of the worker after event `e` in state `s`.
pub open spec fn spec_worker_next(s: AsioWorkerState, e: EventView) -> AsioWorkerState {
    match e {
        EventView::Command(CommandView::Load { .. }) => released(s),
        EventView::Command(CommandView::Stop) => AsioWorkerState { is_playing: false, ..s },
        EventView::Command(CommandView::Shutdown) => AsioWorkerState {
            driver_loaded: false,
            is_playing: false,
            running: false,
        },
        EventView::LoadFinished(Ok(_)) => AsioWorkerState { driver_loaded: true, is_playing: false, ..s },
        EventView::StartFinished(Ok(_)) => AsioWorkerState { is_playing: true, ..s },
        _ => s,
    }
}

/// The actions the worker performs, in order, on event `e` in state `s`.
/// A load first releases any driver; starting or stopping in the state
/// asked for only answers; commands that need a driver are refused
/// without one; shutting down releases the driver and leaves.
pub open spec fn spec_worker_actions(s: AsioWorkerState, e: EventView) -> Seq<ActionView> {
    match e {
        EventView::Command(CommandView::Load { driver_name, sample_rate, channels }) => spec_teardown(
            s,
        ).push(ActionView::LoadDriver { driver_name, sample_rate, channels }),
        EventView::Command(CommandView::Start) => if s.is_playing {
            seq![ActionView::Respond(ResponseView::Started)]
        } else if !s.driver_loaded {
            seq![ActionView::Respond(ResponseView::Error(no_driver_text()))]
        } else {
            seq![ActionView::StartDriver]
        },
        EventView::Command(CommandView::Stop) => if !s.is_playing {
            seq![ActionView::Respond(ResponseView::Stopped)]
        } else {
            seq![ActionView::StopDriver, ActionView::Respond(ResponseView::Stopped)]
        },
        EventView::Command(CommandView::OpenControlPanel) => if s.driver_loaded {
            seq![ActionView::Respond(ResponseView::ControlPanelOpened), ActionView::OpenControlPanel]
        } else {
            seq![ActionView::Respond(ResponseView::Error(no_driver_text()))]
        },
        EventView::Command(CommandView::Shutdown) => spec_teardown(s).push(ActionView::Exit),
        EventView::LoadFinished(Ok((buffer_size, sample_format, actual_sample_rate))) => seq![
            ActionView::Respond(
                ResponseView::Loaded { buffer_size, sample_format, actual_sample_rate },
            ),
        ],
        EventView::LoadFinished(Err(m)) => seq![ActionView::Respond(ResponseView::Error(m))],
        EventView::StartFinished(Ok(_)) => seq![ActionView::Respond(ResponseView::Started)],
        EventView::StartFinished(Err(m)) => seq![
            ActionView::Respond(ResponseView::Error("Failed to start: "@ + m)),
        ],
    }
}

/// The views of a list of actions.
pub open spec fn action_views(v: Seq<WorkerAction>) -> Seq<ActionView> {
    v.map_values(|a: WorkerAction| a@)
}

fn text(s: &str) -> (r: String)
    ensures
        r@ == s@,
{
    let mut out: Vec<char> = Vec::new();
    push_str(&mut out, s);
    string_from_chars(out.as_slice())
}

fn prefixed(prefix: &str, m: &str) -> (r: String)
    ensures
        r@ == prefix@ + m@,
{
    let mut out: Vec<char> = Vec::new();
    push_str(&mut out, prefix);
    let tail = str_chars(m);
    push_chars(&mut out, tail.as_slice());
    string_from_chars(out.as_slice())
}

fn push_teardown(out: &mut Vec<WorkerAction>, s: AsioWorkerState)
    ensures
        action_views(final(out)@) == action_views(old(out)@) + spec_teardown(s),
{
    let ghost start = out@;
    if s.is_playing && s.driver_loaded {
        out.push(WorkerAction::StopDriver);
    }
    let ghost mid = out@;
    assert(action_views(mid) =~= action_views(start) + (if s.is_playing && s.driver_loaded {
        seq![ActionView::StopDriver]
    } else {
        Seq::<ActionView>::empty()
    }));
    if s.driver_loaded {
        out.push(WorkerAction::RemoveCallback);
        out.push(WorkerAction::DisposeBuffers);
        out.push(WorkerAction::ReleaseDriver);
    }
    assert(action_views(out@) =~= action_views(start) + spec_teardown(s));
}

/// One step of the ASIO worker: the next state and the actions to perform,
/// in order, on event `e` in state `s`. A start result only follows the
/// start of a loaded driver.
pub fn asio_worker_step(s: AsioWorkerState, e: WorkerEvent) -> (r: (AsioWorkerState, Vec<WorkerAction>))
    requires
        s.wf(),
        e@ is StartFinished ==> s.driver_loaded,
    ensures
        r.0 == spec_worker_next(s, e@),
        r.0.wf(),
        action_views(r.1@) == spec_worker_actions(s, e@),
{
    let mut out: Vec<WorkerAction> = Vec::new();
    let ghost ev = e@;
    match e {
        WorkerEvent::Command(cmd) => match cmd {
            AsioCommand::Load { driver_name, sample_rate, channels } => {
                push_teardown(&mut out, s);
                let ghost before = out@;
                out.push(WorkerAction::LoadDriver { driver_name, sample_rate, channels });
                assert(action_views(out@) =~= action_views(before).push(out@.last()@));
                (AsioWorkerState { driver_loaded: false, is_playing: false, running: s.running }, out)
            },
            AsioCommand::Start => {
                if s.is_playing {
                    out.push(WorkerAction::Respond(AsioResponse::Started));
                } else if !s.driver_loaded {
                    out.push(WorkerAction::Respond(AsioResponse::Error(text("No driver loaded"))));
                } else {
                    out.push(WorkerAction::StartDriver);
                }
                assert(action_views(out@) =~= spec_worker_actions(s, ev));
                (s, out)
            },
            AsioCommand::Stop => {
                if !s.is_playing {
                    out.push(WorkerAction::Respond(AsioResponse::Stopped));
                } else {
                    out.push(WorkerAction::StopDriver);
                    out.push(WorkerAction::Respond(AsioResponse::Stopped));
                }
                assert(action_views(out@) =~= spec_worker_actions(s, ev));
                (AsioWorkerState { is_playing: false, ..s }, out)
            },
            AsioCommand::OpenControlPanel => {
                if s.driver_loaded {
                    out.push(WorkerAction::Respond(AsioResponse::ControlPanelOpened));
                    out.push(WorkerAction::OpenControlPanel);
                } else {
                    out.push(WorkerAction::Respond(AsioResponse::Error(text("No driver loaded"))));
                }
                assert(action_views(out@) =~= spec_worker_actions(s, ev));
                (s, out)
            },
            AsioCommand::Shutdown => {
                push_teardown(&mut out, s);
                let ghost before = out@;
                out.push(WorkerAction::Exit);
                assert(action_views(out@) =~= action_views(before).push(ActionView::Exit));
                (AsioWorkerState { driver_loaded: false, is_playing: false, running: false }, out)
            },
        },
        WorkerEvent::LoadFinished(res) => match res {
            Ok((buffer_size, sample_format, actual_sample_rate)) => {
                out.push(
                    WorkerAction::Respond(
                        AsioResponse::Loaded { buffer_size, sample_format, actual_sample_rate },
                    ),
                );
                assert(action_views(out@) =~= spec_worker_actions(s, ev));
                (AsioWorkerState { driver_loaded: true, is_playing: false, ..s }, out)
            },
            Err(m) => {
                out.push(WorkerAction::Respond(AsioResponse::Error(m)));
                assert(action_views(out@) =~= spec_worker_actions(s, ev));
                (s, out)
            },
        },
        WorkerEvent::StartFinished(res) => match res {
            Ok(()) => {
                out.push(WorkerAction::Respond(AsioResponse::Started));
                assert(action_views(out@) =~= spec_worker_actions(s, ev));
                (AsioWorkerState { is_playing: true, ..s }, out)
            },
            Err(m) => {
                out.push(
                    WorkerAction::Respond(AsioResponse::Error(prefixed("Failed to start: ", &m))),
                );
                assert(action_views(out@) =~= spec_worker_actions(s, ev));
                (s, out)
            },
        },
    }
}

/// The number of answers among a list of actions.
pub open spec fn answers(a: Seq<ActionView>) -> nat
    decreases a.len(),
{
    if a.len() == 0 {
        0
    } else {
        answers(a.drop_last()) + if a.last() is Respond {
            1nat
        } else {
            0nat
        }
    }
}

proof fn lemma_teardown_answers_nothing(s: AsioWorkerState)
    ensures
        answers(spec_teardown(s)) == 0,
{
    reveal_with_fuel(answers, 5);
    let t = spec_teardown(s);
    if s.is_playing && s.driver_loaded {
        assert(t =~= seq![
            ActionView::StopDriver,
            ActionView::RemoveCallback,
            ActionView::DisposeBuffers,
            ActionView::ReleaseDriver,
        ]);
        assert(t.drop_last().drop_last().drop_last().drop_last() =~= Seq::<ActionView>::empty());
        assert(t.drop_last().drop_last().drop_last() =~= seq![ActionView::StopDriver]);
        assert(t.drop_last().drop_last() =~= seq![ActionView::StopDriver, ActionView::RemoveCallback]);
        assert(t.drop_last() =~= seq![
            ActionView::StopDriver,
            ActionView::RemoveCallback,
            ActionView::DisposeBuffers,
        ]);
    } else if s.driver_loaded {
        assert(t =~= seq![
            ActionView::RemoveCallback,
            ActionView::DisposeBuffers,
            ActionView::ReleaseDriver,
        ]);
        assert(t.drop_last().drop_last().drop_last() =~= Seq::<ActionView>::empty());
        assert(t.drop_last().drop_last() =~= seq![ActionView::RemoveCallback]);
        assert(t.drop_last() =~= seq![ActionView::RemoveCallback, ActionView::DisposeBuffers]);
    } else {
        assert(t =~= Seq::<ActionView>::empty());
    }
}

/// Every command is answered exactly once: at once, or, for a load and for
/// a start that reaches the driver, by the event that reports the driver
/// work, which itself answers exactly once; shutting down answers nothing
/// and leaves.
pub proof fn lemma_each_command_answered_once(s: AsioWorkerState, c: CommandView)
    requires
        s.wf(),
    ensures
        ({
            let acts = spec_worker_actions(s, EventView::Command(c));
            &&& c is Shutdown ==> answers(acts) == 0 && acts.last() is Exit
            &&& c is Load ==> answers(acts) == 0 && acts.last() is LoadDriver
            &&& c is Start ==> (answers(acts) == 1 || (answers(acts) == 0 && acts
                =~= seq![ActionView::StartDriver]))
            &&& (c is Stop || c is OpenControlPanel) ==> answers(acts) == 1
        }),
        forall|r: Result<(i32, SampleFormat, u32), Seq<char>>|
            answers(#[trigger] spec_worker_actions(s, EventView::LoadFinished(r))) == 1,
        forall|r: Result<(), Seq<char>>|
            answers(#[trigger] spec_worker_actions(s, EventView::StartFinished(r))) == 1,
{
    reveal_with_fuel(answers, 3);
    lemma_teardown_answers_nothing(s);
    let acts = spec_worker_actions(s, EventView::Command(c));
    match c {
        CommandView::Load { driver_name, sample_rate, channels } => {
            assert(acts.drop_last() =~= spec_teardown(s));
        },
        CommandView::Shutdown => {
            assert(acts.drop_last() =~= spec_teardown(s));
        },
        CommandView::Stop => {
            if s.is_playing {
                assert(acts.drop_last() =~= seq![ActionView::StopDriver]);
                assert(acts.drop_last().drop_last() =~= Seq::<ActionView>::empty());
            } else {
                assert(acts.drop_last() =~= Seq::<ActionView>::empty());
            }
        },
        CommandView::OpenControlPanel => {
            if s.driver_loaded {
                assert(acts.drop_last() =~= seq![ActionView::Respond(ResponseView::ControlPanelOpened)]);
                assert(acts.drop_last().drop_last() =~= Seq::<ActionView>::empty());
            } else {
                assert(acts.drop_last() =~= Seq::<ActionView>::empty());
            }
        },
        CommandView::Start => {
            assert(acts.drop_last() =~= Seq::<ActionView>::empty());
        },
    }
    assert forall|r: Result<(i32, SampleFormat, u32), Seq<char>>|
        answers(#[trigger] spec_worker_actions(s, EventView::LoadFinished(r))) == 1 by {
        assert(spec_worker_actions(s, EventView::LoadFinished(r)).drop_last()
            =~= Seq::<ActionView>::empty());
    }
    assert forall|r: Result<(), Seq<char>>|
        answers(#[trigger] spec_worker_actions(s, EventView::StartFinished(r))) == 1 by {
        assert(spec_worker_actions(s, EventView::StartFinished(r)).drop_last()
            =~= Seq::<ActionView>::empty());
    }
}

/// A loaded driver is always let go before another is loaded and before
/// the worker leaves: a playing driver is stopped first, then its callback
/// is removed, its buffers disposed of and the driver released, and only
/// then does the load or the exit follow. Without a driver the load or the
/// exit is all there is to do. Either way no driver is left loaded or
/// playing.
pub proof fn lemma_driver_released_before_load_or_exit(s: AsioWorkerState, c: CommandView)
    requires
        s.wf(),
        c is Load || c is Shutdown,
    ensures
        ({
            let acts = spec_worker_actions(s, EventView::Command(c));
            let n = acts.len() as int;
            &&& s.driver_loaded ==> {
                &&& n >= 4
                &&& acts[n - 4] is RemoveCallback
                &&& acts[n - 3] is DisposeBuffers
                &&& acts[n - 2] is ReleaseDriver
                &&& (s.is_playing <==> acts[0] is StopDriver)
                &&& n == if s.is_playing { 5int } else { 4int }
            }
            &&& !s.driver_loaded ==> n == 1
            &&& (c is Load ==> acts[n - 1] is LoadDriver)
            &&& (c is Shutdown ==> acts[n - 1] is Exit)
            &&& !spec_worker_next(s, EventView::Command(c)).driver_loaded
            &&& !spec_worker_next(s, EventView::Command(c)).is_playing
        }),
{
}

/// The worker only ever plays a loaded driver, whatever happens to it; it
/// starts playing only when the driver reports a successful start, and a
/// shut-down worker takes no more commands.
pub proof fn lemma_worker_plays_only_loaded_driver(s: AsioWorkerState, e: EventView)
    requires
        s.wf(),
        e is StartFinished ==> s.driver_loaded,
    ensures
        spec_worker_next(s, e).wf(),
        spec_worker_next(s, e).is_playing && !s.is_playing ==> e matches EventView::StartFinished(
            Ok(_),
        ),
        e matches EventView::Command(CommandView::Shutdown) ==> !spec_worker_next(s, e).running,
{
}

/// Whether the driver `expected` is among the installed drivers `names`.
pub fn driver_listed(names: &Vec<String>, expected: &str) -> (r: bool)
    ensures
        r == exists|i: int| 0 <= i < names@.len() && (#[trigger] names@[i])@ == expected@,
{
    let mut i: usize = 0;
    while i < names.len()
        invariant
            0 <= i <= names@.len(),
            forall|k: int| 0 <= k < i ==> (#[trigger] names@[k])@ != expected@,
        decreases names@.len() - i,
    {
        if str_eq(names[i].as_str(), expected) {
            return true;
        }
        i = i + 1;
    }
    false
}

/// The answer of a worker whose driver is not installed.
pub fn driver_missing_text(expected: &str) -> (r: String)
    ensures
        r@ == "ASIO driver '"@ + expected@ + "' not found"@,
{
    let mut out: Vec<char> = Vec::new();
    push_str(&mut out, "ASIO driver '");
    push_str(&mut out, expected);
    push_str(&mut out, "' not found");
    string_from_chars(out.as_slice())
}

/// Whether a freshly loaded driver has to be asked for the requested rate:
/// only when it runs at another one.
pub fn rate_needs_setting(current_rate: u32, requested_rate: u32) -> (r: bool)
    ensures
        r == (current_rate != requested_rate),
{
    current_rate != requested_rate
}

/// The samples of the buffer between the player and the driver callback:
/// half a second of audio.
pub fn asio_ring_capacity(sample_rate: u32, channels: u16) -> (r: u64)
    ensures
        r == (sample_rate as int * channels as int) / 2,
{
    assert(sample_rate as int * channels as int <= u32::MAX as int * u16::MAX as int) by (nonlinear_arith);
    (sample_rate as u64 * channels as u64) / 2
}

/// What one driver callback takes from the buffer: as many samples as it
/// needs if the buffer holds them, else all there are, the rest of the
/// period being silence (an underrun).
pub fn callback_take(samples_needed: usize, available: usize) -> (r: (usize, bool))
    ensures
        r.0 == (if available < samples_needed {
            available
        } else {
            samples_needed
        }),
        r.1 == (available < samples_needed),
        r.0 <= samples_needed,
{
    if available < samples_needed {
        (available, true)
    } else {
        (samples_needed, false)
    }
}

/// The samples of channel `ch` in the first `frames` frames of interleaved
/// samples of `channels` channels.
pub fn deinterleave_channel<T: Copy>(interleaved: &[T], channels: usize, ch: usize, frames: usize) -> (r:
    Vec<T>)
    requires
        ch < channels,
        frames * channels <= interleaved@.len(),
    ensures
        r@.len() == frames,
        forall|f: int| 0 <= f < frames ==> #[trigger] r@[f] == interleaved@[f * channels + ch],
{
    let n = interleaved.len();
    let mut out: Vec<T> = Vec::new();
    let mut f: usize = 0;
    while f < frames
        invariant
            n == interleaved@.len(),
            ch < channels,
            frames * channels <= interleaved@.len(),
            0 <= f <= frames,
            out@.len() == f,
            forall|g: int| 0 <= g < f ==> #[trigger] out@[g] == interleaved@[g * channels + ch],
        decreases frames - f,
    {
        assert(f * channels + ch < interleaved@.len()) by (nonlinear_arith)
            requires
                f < frames,
                ch < channels,
                frames * channels <= interleaved@.len(),
        ;
        let idx = f * channels + ch;
        out.push(interleaved[idx]);
        f = f + 1;
    }
    out
}

/// How a sample format is written in the worker's answers.
pub open spec fn sample_format_text(f: SampleFormat) -> Seq<char> {
    match f {
        SampleFormat::Int32 => "Int32"@,
        SampleFormat::Int32Lsb24 => "Int32Lsb24"@,
        SampleFormat::Float32 => "Float32"@,
    }
}

/// How an answer other than an error is written in a complaint about an
/// answer that was not expected.
pub open spec fn response_text(r: ResponseView) -> Seq<char> {
    match r {
        ResponseView::Loaded { buffer_size, sample_format, actual_sample_rate } => "Loaded { buffer_size: "@
            + signed_decimal(buffer_size as int) + ", sample_format: "@ + sample_format_text(
            sample_format,
        ) + ", actual_sample_rate: "@ + decimal(actual_sample_rate as nat) + " }"@,
        ResponseView::Started => "Started"@,
        ResponseView::Stopped => "Stopped"@,
        ResponseView::ControlPanelOpened => "ControlPanelOpened"@,
        ResponseView::Error(m) => m,
    }
}

fn push_response_text(out: &mut Vec<char>, r: &AsioResponse)
    requires
        !(r@ is Error),
    ensures
        final(out)@ == old(out)@ + response_text(r@),
{
    let ghost start = out@;
    match r {
        AsioResponse::Loaded { buffer_size, sample_format, actual_sample_rate } => {
            push_str(out, "Loaded { buffer_size: ");
            push_signed_decimal(out, *buffer_size as i64);
            push_str(out, ", sample_format: ");
            match sample_format {
                SampleFormat::Int32 => push_str(out, "Int32"),
                SampleFormat::Int32Lsb24 => push_str(out, "Int32Lsb24"),
                SampleFormat::Float32 => push_str(out, "Float32"),
            }
            push_str(out, ", actual_sample_rate: ");
            push_padded_decimal(out, *actual_sample_rate as u64, 0);
            assert(zero_pad(decimal(*actual_sample_rate as nat), 0) =~= decimal(
                *actual_sample_rate as nat,
            ));
            push_str(out, " }");
            assert(out@ =~= start + response_text(r@));
        },
        AsioResponse::Started => push_str(out, "Started"),
        AsioResponse::Stopped => push_str(out, "Stopped"),
        AsioResponse::ControlPanelOpened => push_str(out, "ControlPanelOpened"),
        AsioResponse::Error(_) => {},
    }
}

/// The answer the worker was waited for.
#[derive(Debug, Clone, Copy, PartialEq, Eq, Structural)]
pub enum Expected {
    Loaded,
    Started,
    Stopped,
    ControlPanelOpened,
}

/// Whether answer `r` is the one waited for.
pub open spec fn is_expected(e: Expected, r: ResponseView) -> bool {
    match e {
        Expected::Loaded => r is Loaded,
        Expected::Started => r is Started,
        Expected::Stopped => r is Stopped,
        Expected::ControlPanelOpened => r is ControlPanelOpened,
    }
}

/// What waiting for answer `e` gives when `resp` came back (`None`: the
/// worker is gone): the answer waited for, or the ASIO error with the
/// worker's message, with a complaint about an unexpected answer, or with
/// the news that the worker is gone.
pub fn await_answer(e: Expected, resp: Option<AsioResponse>) -> (r: Result<AsioResponse, OutputError>)
    ensures
        match resp {
            None => r matches Err(OutputError::Asio(m)) && m@ == "Worker thread disconnected"@,
            Some(a) => if is_expected(e, a@) {
                r matches Ok(b) && b@ == a@
            } else if a@ is Error {
                r matches Err(OutputError::Asio(m)) && ResponseView::Error(m@) == a@
            } else {
                r matches Err(OutputError::Asio(m)) && m@ == "Unexpected response: "@
                    + response_text(a@)
            },
        },
{
    match resp {
        None => Err(OutputError::Asio(text("Worker thread disconnected"))),
        Some(a) => {
            let wanted = match e {
                Expected::Loaded => matches!(a, AsioResponse::Loaded { .. }),
                Expected::Started => matches!(a, AsioResponse::Started),
                Expected::Stopped => matches!(a, AsioResponse::Stopped),
                Expected::ControlPanelOpened => matches!(a, AsioResponse::ControlPanelOpened),
            };
            if wanted {
                Ok(a)
            } else {
                match a {
                    AsioResponse::Error(m) => Err(OutputError::Asio(m)),
                    other => {
                        let mut out: Vec<char> = Vec::new();
                        push_str(&mut out, "Unexpected response: ");
                        push_response_text(&mut out, &other);
                        Err(OutputError::Asio(string_from_chars(out.as_slice())))
                    },
                }
            }
        },
    }
}

/// What an ASIO output knows of itself, apart from its worker: the driver
/// asked for, the rate asked for and the one the driver runs at, the
/// stream format, whether it runs and the driver's buffer size.
pub struct AsioOutput {
    driver_name: String,
    requested_sample_rate: u32,
    actual_sample_rate: u32,
    channels: u16,
    bit_depth: u16,
    valid_bits: u16,
    started: bool,
    buffer_size: i32,
}

/// The content of an [`AsioOutput`].
pub struct AsioOutputView {
    pub driver_name: Seq<char>,
    pub requested_sample_rate: u32,
    pub actual_sample_rate: u32,
    pub channels: u16,
    pub bit_depth: u16,
    pub valid_bits: u16,
    pub started: bool,
    pub buffer_size: i32,
}

impl View for AsioOutput {
    type V = AsioOutputView;

    closed spec fn view(&self) -> AsioOutputView {
        AsioOutputView {
            driver_name: self.driver_name@,
            requested_sample_rate: self.requested_sample_rate,
            actual_sample_rate: self.actual_sample_rate,
            channels: self.channels,
            bit_depth: self.bit_depth,
            valid_bits: self.valid_bits,
            started: self.started,
            buffer_size: self.buffer_size,
        }
    }
}

impl AsioOutput {
    /// An output for `driver_name` at `sample_rate`; the driver is loaded
    /// on the first start, so this never fails. It feeds 24 valid bits in
    /// 32-bit containers and assumes the driver runs at the rate asked for
    /// until it says otherwise.
    pub fn new(driver_name: &str, sample_rate: u32, channels: u16) -> (r: Result<Self, OutputError>)
        ensures
            r matches Ok(o) && o@ == (AsioOutputView {
                driver_name: driver_name@,
                requested_sample_rate: sample_rate,
                actual_sample_rate: sample_rate,
                channels,
                bit_depth: 32,
                valid_bits: 24,
                started: false,
                buffer_size: 0,
            }),
    {
        Ok(
            AsioOutput {
                driver_name: text(driver_name),
                requested_sample_rate: sample_rate,
                actual_sample_rate: sample_rate,
                channels,
                bit_depth: 32,
                valid_bits: 24,
                started: false,
                buffer_size: 0,
            },
        )
    }

    pub fn driver_name(&self) -> (r: &str)
        ensures
            r@ == self@.driver_name,
    {
        self.driver_name.as_str()
    }

    /// ASIO always owns the device.
    pub fn is_exclusive(&self) -> (r: bool)
        ensures
            r,
    {
        true
    }

    pub fn requested_sample_rate(&self) -> (r: u32)
        ensures
            r == self@.requested_sample_rate,
    {
        self.requested_sample_rate
    }

    /// The rate the driver runs at.
    pub fn sample_rate(&self) -> (r: u32)
        ensures
            r == self@.actual_sample_rate,
    {
        self.actual_sample_rate
    }

    /// Whether the audio has to be resampled: the driver runs at another
    /// rate than the one asked for.
    pub fn needs_resampling(&self) -> (r: bool)
        ensures
            r == (self@.actual_sample_rate != self@.requested_sample_rate),
    {
        self.actual_sample_rate != self.requested_sample_rate
    }

    pub fn channels(&self) -> (r: u16)
        ensures
            r == self@.channels,
    {
        self.channels
    }

    pub fn bit_depth(&self) -> (r: u16)
        ensures
            r == self@.bit_depth,
    {
        self.bit_depth
    }

    pub fn valid_bits(&self) -> (r: u16)
        ensures
            r == self@.valid_bits,
    {
        self.valid_bits
    }

    pub fn is_started(&self) -> (r: bool)
        ensures
            r == self@.started,
    {
        self.started
    }

    /// The driver's buffer size in frames; a negative size counts as none.
    pub fn buffer_size_frames(&self) -> (r: u32)
        ensures
            r == (if self@.buffer_size < 0 {
                0
            } else {
                self@.buffer_size as int
            }),
    {
        if self.buffer_size < 0 {
            0
        } else {
            self.buffer_size as u32
        }
    }

    /// The name of the sample format fed to the driver.
    pub fn sample_format_name(&self) -> (r: String)
        ensures
            r@ == spec_asio_format_name(self@.bit_depth, self@.valid_bits),
    {
        asio_format_name(self.bit_depth, self.valid_bits)
    }

    /// Record that the worker loaded and started the driver, which runs at
    /// `actual_sample_rate` with buffers of `buffer_size` frames.
    pub fn record_started(&mut self, buffer_size: i32, actual_sample_rate: u32)
        ensures
            final(self)@ == (AsioOutputView {
                started: true,
                buffer_size,
                actual_sample_rate,
                ..old(self)@
            }),
    {
        self.buffer_size = buffer_size;
        self.actual_sample_rate = actual_sample_rate;
        self.started = true;
    }

    /// Record that the worker is gone.
    pub fn record_stopped(&mut self)
        ensures
            final(self)@ == (AsioOutputView { started: false, buffer_size: 0, ..old(self)@ }),
    {
        self.buffer_size = 0;
        self.started = false;
    }

    /// Frames moved from the player's buffer, holding `available_frames`,
    /// to the worker's, with room for `space_samples` samples: whole
    /// frames, as many as both allow (none without channels).
    pub fn transfer_frames(&self, available_frames: usize, space_samples: usize) -> (r: usize)
        ensures
            self@.channels == 0 ==> r == 0,
            self@.channels > 0 ==> r == (if (available_frames as int) < (space_samples as int) / (
            self@.channels as int) {
                available_frames as int
            } else {
                (space_samples as int) / (self@.channels as int)
            }),
            r * self@.channels <= space_samples,
    {
        let channels = self.channels as usize;
        if channels == 0 {
            return 0;
        }
        let space_frames = space_samples / channels;
        let r = if available_frames < space_frames {
            available_frames
        } else {
            space_frames
        };
        assert(r * channels <= space_samples) by (nonlinear_arith)
            requires
                r <= space_frames,
                space_frames == space_samples / channels,
                channels > 0,
        ;
        r
    }

    /// DoP samples handed to the worker out of `dop_count`, with room for
    /// `space_samples`: as many as fit, cut to whole frames (none without
    /// channels).
    pub fn dop_samples_to_push(&self, dop_count: usize, space_samples: usize) -> (r: usize)
        ensures
            self@.channels == 0 ==> r == 0,
            self@.channels > 0 ==> r == (if dop_count < space_samples {
                dop_count as int
            } else {
                space_samples as int
            }) / (self@.channels as int) * (self@.channels as int),
            r <= dop_count,
            r <= space_samples,
    {
        let channels = self.channels as usize;
        if channels == 0 {
            return 0;
        }
        let fit = if dop_count < space_samples {
            dop_count
        } else {
            space_samples
        };
        let frames = fit / channels;
        assert(frames * channels <= fit) by (nonlinear_arith)
            requires
                frames == fit / channels,
                channels > 0,
        ;
        frames * channels
    }
}

/// The error of an ASIO output asked for its control panel before its
/// worker runs.
pub fn worker_not_running() -> (r: OutputError)
    ensures
        r matches OutputError::Asio(m) && m@ == "ASIO worker not running"@,
{
    OutputError::Asio(text("ASIO worker not running"))
}

} // verus!
