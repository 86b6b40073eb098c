use vstd::prelude::*;
use crate::playable::Playable;
use crate::queue::QueueEvent;

verus! {

/// The event loop's private mirror of the playback engine's state. It is
/// needed because the engine reports a bare position on seek, without saying
/// whether playback is running.
#[derive(Clone, Copy, PartialEq, Eq, Structural, Debug)]
pub enum PlayerStatus {
    Playing,
    Paused,
    Stopped,
}

/// A playback-status event published to the rest of the application.
/// Instants and positions are in milliseconds; the instant carried by
/// `Playing` is "now minus elapsed position", so the current position can
/// always be derived from the clock without polling.
#[derive(Clone, Copy, PartialEq, Eq, Structural, Debug)]
pub enum PlayerEvent {
    Playing(u64),
    Paused(u64),
    Stopped,
    FinishedTrack,
}

/// A domain event published by the event loop.
#[derive(Clone, Copy, PartialEq, Eq, Structural, Debug)]
pub enum Event {
    Player(PlayerEvent),
    Queue(QueueEvent),
}

/// The closed set of commands that callers send to the event loop.
#[derive(Clone, Copy, PartialEq, Eq, Structural, Debug)]
pub enum WorkerCommand {
    /// Load an item: start playing if the flag is set, from the given
    /// position in milliseconds.
    Load(Playable, bool, u32),
    Play,
    Pause,
    Stop,
    Seek(u32),
    SetVolume(u16),
    /// Install a fresh background token-refresh task, replacing whatever
    /// task was installed before. The reply channel stays with the caller.
    RequestToken,
    Preload(Playable),
    Shutdown,
}

/// A raw notification from the playback engine, as the loop's driver hands
/// it in. Positions are in milliseconds.
#[derive(Clone, Copy, PartialEq, Eq, Structural, Debug)]
pub enum RawPlayerEvent {
    Playing { position_ms: u32 },
    Paused { position_ms: u32 },
    Stopped,
    EndOfTrack,
    TimeToPreloadNext,
    Seeked { position_ms: u32 },
    /// Any notification the loop does not recognize; it is ignored.
    Unknown,
}

/// The first of the loop's waiting sources becoming ready in one iteration.
#[derive(Clone, Copy, PartialEq, Eq, Structural, Debug)]
pub enum WorkerInput {
    /// The session was found invalidated before the iteration.
    SessionInvalidated,
    /// One queued command arrived. `loadable` reports whether the item of a
    /// `Load` or `Preload` command has a well-formed, playable identifier;
    /// for every other command it is ignored.
    Command { cmd: WorkerCommand, loadable: bool },
    /// The command channel is exhausted: a transient idle condition.
    CommandsIdle,
    /// One engine notification arrived; `now_ms` is the clock reading at
    /// that moment, in milliseconds.
    Notification { event: RawPlayerEvent, now_ms: u64 },
    /// The notification channel closed: fatal.
    NotificationsClosed,
    /// The periodic refresh tick fired.
    Tick,
    /// The installed background token task resolved.
    TokenTaskDone,
}

/// A synchronous call into the playback engine or the volume control that
/// one loop iteration asks its driver to make.
#[derive(Clone, Copy, PartialEq, Eq, Structural, Debug)]
pub enum EngineAction {
    Load(Playable, bool, u32),
    Play,
    Pause,
    Stop,
    Seek(u32),
    SetVolume(u16),
    Preload(Playable),
}

/// Everything one loop iteration asks its driver to do, in addition to the
/// mirror update the worker makes itself.
#[derive(Clone, Copy, PartialEq, Eq, Structural, Debug)]
pub struct WorkerStep {
    /// Domain event to publish.
    pub emit: Option<Event>,
    /// Call to make into the engine or the volume control.
    pub engine: Option<EngineAction>,
    /// Install a fresh background token task, cancelling the previous one.
    pub install_token_task: bool,
    /// Reset the background task slot to the never-resolving placeholder.
    pub clear_token_task: bool,
    /// Tear down the session.
    pub shutdown_session: bool,
    /// Ask the UI to re-render animated parts.
    pub trigger_redraw: bool,
    /// Leave the loop.
    pub exit: bool,
}

/// The step that does nothing.
pub open spec fn empty_step() -> WorkerStep {
    WorkerStep {
        emit: None,
        engine: None,
        install_token_task: false,
        clear_token_task: false,
        shutdown_session: false,
        trigger_redraw: false,
        exit: false,
    }
}

/// The instant playback started, reconstructed as "now minus elapsed
/// position" and clamped at zero.
pub open spec fn start_instant(now_ms: u64, position_ms: u32) -> u64 {
    if now_ms >= position_ms as u64 {
        (now_ms - position_ms as u64) as u64
    } else {
        0
    }
}

/// What one command asks the driver to do. A `Load` whose item is not
/// loadable is translated into an immediate `FinishedTrack` event instead of
/// a failure, so upstream auto-advance goes on; a `Preload` of such an item
/// is dropped. `Shutdown` stops the engine and tears the session down; the
/// loop then exits on the next session-validity check.
pub open spec fn spec_command_step(cmd: WorkerCommand, loadable: bool) -> WorkerStep {
    match cmd {
        WorkerCommand::Load(item, start_playing, position_ms) => if loadable {
            WorkerStep { engine: Some(EngineAction::Load(item, start_playing, position_ms)), ..empty_step() }
        } else {
            WorkerStep { emit: Some(Event::Player(PlayerEvent::FinishedTrack)), ..empty_step() }
        },
        WorkerCommand::Play => (WorkerStep { engine: Some(EngineAction::Play), ..empty_step() }),
        WorkerCommand::Pause => (WorkerStep { engine: Some(EngineAction::Pause), ..empty_step() }),
        WorkerCommand::Stop => (WorkerStep { engine: Some(EngineAction::Stop), ..empty_step() }),
        WorkerCommand::Seek(position_ms) => (WorkerStep { engine: Some(EngineAction::Seek(position_ms)), ..empty_step() }),
        WorkerCommand::SetVolume(volume) => (WorkerStep { engine: Some(EngineAction::SetVolume(volume)), ..empty_step() }),
        WorkerCommand::RequestToken => (WorkerStep { install_token_task: true, ..empty_step() }),
        WorkerCommand::Preload(item) => if loadable {
            WorkerStep { engine: Some(EngineAction::Preload(item)), ..empty_step() }
        } else {
            empty_step()
        },
        WorkerCommand::Shutdown => (WorkerStep { engine: Some(EngineAction::Stop), shutdown_session: true, ..empty_step() }),
    }
}

/// The domain event one raw notification is republished as. A seek carries
/// only a position, so the missing play/pause dimension is supplied by the
/// mirror.
pub open spec fn spec_notification_emit(status: PlayerStatus, event: RawPlayerEvent, now_ms: u64) -> Option<Event> {
    match event {
        RawPlayerEvent::Playing { position_ms } => Some(
            Event::Player(PlayerEvent::Playing(start_instant(now_ms, position_ms))),
        ),
        RawPlayerEvent::Paused { position_ms } => Some(Event::Player(PlayerEvent::Paused(position_ms as u64))),
        RawPlayerEvent::Stopped => Some(Event::Player(PlayerEvent::Stopped)),
        RawPlayerEvent::EndOfTrack => Some(Event::Player(PlayerEvent::FinishedTrack)),
        RawPlayerEvent::TimeToPreloadNext => Some(Event::Queue(QueueEvent::PreloadTrackRequest)),
        RawPlayerEvent::Seeked { position_ms } => match status {
            PlayerStatus::Playing => Some(Event::Player(PlayerEvent::Playing(start_instant(now_ms, position_ms)))),
            PlayerStatus::Paused => Some(Event::Player(PlayerEvent::Paused(position_ms as u64))),
            PlayerStatus::Stopped => Some(Event::Player(PlayerEvent::Stopped)),
        },
        RawPlayerEvent::Unknown => None,
    }
}

/// The mirror after a raw notification: only explicit play/pause/stop
/// reports move it.
pub open spec fn spec_status_after_notification(status: PlayerStatus, event: RawPlayerEvent) -> PlayerStatus {
    match event {
        RawPlayerEvent::Playing { .. } => PlayerStatus::Playing,
        RawPlayerEvent::Paused { .. } => PlayerStatus::Paused,
        RawPlayerEvent::Stopped => PlayerStatus::Stopped,
        _ => status,
    }
}

/// The full decision table of one loop iteration: what the driver must do
/// for each ready source.
pub open spec fn spec_step(status: PlayerStatus, input: WorkerInput) -> WorkerStep {
    match input {
        WorkerInput::SessionInvalidated => WorkerStep {
            emit: Some(Event::Player(PlayerEvent::Stopped)),
            exit: true,
            ..empty_step()
        },
        WorkerInput::Command { cmd, loadable } => spec_command_step(cmd, loadable),
        WorkerInput::CommandsIdle => empty_step(),
        WorkerInput::Notification { event, now_ms } => WorkerStep {
            emit: spec_notification_emit(status, event, now_ms),
            ..empty_step()
        },
        WorkerInput::NotificationsClosed => (WorkerStep { exit: true, ..empty_step() }),
        WorkerInput::Tick => (WorkerStep { trigger_redraw: status != PlayerStatus::Stopped, ..empty_step() }),
        WorkerInput::TokenTaskDone => (WorkerStep { clear_token_task: true, ..empty_step() }),
    }
}

/// The mirror after one loop iteration.
pub open spec fn spec_status_after(status: PlayerStatus, input: WorkerInput) -> PlayerStatus {
    match input {
        WorkerInput::Notification { event, .. } => spec_status_after_notification(status, event),
        _ => status,
    }
}

/// Whether a real background task sits in the slot after one iteration: a
/// token request installs one (replacing, and thereby cancelling, whatever
/// was there), and a resolved task gives way to the never-resolving
/// placeholder.
pub open spec fn spec_task_installed_after(installed: bool, input: WorkerInput) -> bool {
    match input {
        WorkerInput::Command { cmd: WorkerCommand::RequestToken, .. } => true,
        WorkerInput::TokenTaskDone => false,
        _ => installed,
    }
}

/// Whether this input is a token request, the one input that installs a
/// task in the slot.
fn is_token_request(input: &WorkerInput) -> (r: bool)
    ensures
        r == (input matches WorkerInput::Command { cmd: WorkerCommand::RequestToken, .. }),
{
    match input {
        WorkerInput::Command { cmd: WorkerCommand::RequestToken, .. } => true,
        _ => false,
    }
}

/// The decision core of the cooperative event loop. The surrounding process
/// owns the channels, the engine handle, the session and the background task
/// slot; it feeds each ready source in here and performs what the returned
/// step says.
pub struct Worker {
    /// Shadow of the engine's playing/paused/stopped state, updated only
    /// from explicit notifications.
    pub player_status: PlayerStatus,
    /// Whether the background task slot holds a real task rather than the
    /// never-resolving placeholder it is initialized to.
    pub token_task_installed: bool,
}

impl Worker {
    /// A worker starts with the mirror at `Stopped`, the engine not having
    /// reported anything yet, and the placeholder in the task slot.
    pub fn new() -> (w: Worker)
        ensures
            w.player_status == PlayerStatus::Stopped,
            !w.token_task_installed,
    {
        Worker { player_status: PlayerStatus::Stopped, token_task_installed: false }
    }

    /// One iteration of the event loop: decide what the ready source asks
    /// for, and update the status mirror.
    pub fn step(&mut self, input: WorkerInput) -> (s: WorkerStep)
        ensures
            s == spec_step(old(self).player_status, input),
            final(self).player_status == spec_status_after(old(self).player_status, input),
            final(self).token_task_installed == spec_task_installed_after(
                old(self).token_task_installed,
                input,
            ),
    {
        if is_token_request(&input) {
            self.token_task_installed = true;
        }
        if matches!(input, WorkerInput::TokenTaskDone) {
            self.token_task_installed = false;
        }
        match input {
            WorkerInput::SessionInvalidated => WorkerStep {
                emit: Some(Event::Player(PlayerEvent::Stopped)),
                engine: None,
                install_token_task: false,
                clear_token_task: false,
                shutdown_session: false,
                trigger_redraw: false,
                exit: true,
            },
            WorkerInput::Command { cmd, loadable } => self.run_command(cmd, loadable),
            WorkerInput::CommandsIdle => Self::step_none(),
            WorkerInput::Notification { event, now_ms } => self.translate_notification(event, now_ms),
            WorkerInput::NotificationsClosed => {
                let mut s = Self::step_none();
                s.exit = true;
                s
            },
            WorkerInput::Tick => {
                let mut s = Self::step_none();
                s.trigger_redraw = !matches!(self.player_status, PlayerStatus::Stopped);
                s
            },
            WorkerInput::TokenTaskDone => {
                let mut s = Self::step_none();
                s.clear_token_task = true;
                s
            },
        }
    }

    /// The step that does nothing.
    fn step_none() -> (s: WorkerStep)
        ensures
            s == empty_step(),
    {
        WorkerStep {
            emit: None,
            engine: None,
            install_token_task: false,
            clear_token_task: false,
            shutdown_session: false,
            trigger_redraw: false,
            exit: false,
        }
    }

    /// Execute one queued command: hand the matching engine call (or task
    /// slot operation) to the driver, translating an unloadable item into
    /// `FinishedTrack`.
    fn run_command(&mut self, cmd: WorkerCommand, loadable: bool) -> (s: WorkerStep)
        ensures
            s == spec_command_step(cmd, loadable),
            *final(self) == *old(self),
    {
        let mut s = Self::step_none();
        match cmd {
            WorkerCommand::Load(item, start_playing, position_ms) => {
                if loadable {
                    s.engine = Some(EngineAction::Load(item, start_playing, position_ms));
                } else {
                    s.emit = Some(Event::Player(PlayerEvent::FinishedTrack));
                }
            },
            WorkerCommand::Play => {
                s.engine = Some(EngineAction::Play);
            },
            WorkerCommand::Pause => {
                s.engine = Some(EngineAction::Pause);
            },
            WorkerCommand::Stop => {
                s.engine = Some(EngineAction::Stop);
            },
            WorkerCommand::Seek(position_ms) => {
                s.engine = Some(EngineAction::Seek(position_ms));
            },
            WorkerCommand::SetVolume(volume) => {
                s.engine = Some(EngineAction::SetVolume(volume));
            },
            WorkerCommand::RequestToken => {
                s.install_token_task = true;
            },
            WorkerCommand::Preload(item) => {
                if loadable {
                    s.engine = Some(EngineAction::Preload(item));
                }
            },
            WorkerCommand::Shutdown => {
                s.engine = Some(EngineAction::Stop);
                s.shutdown_session = true;
            },
        }
        s
    }

    /// Map one raw engine notification to the domain event it is published
    /// as, and move the mirror.
    fn translate_notification(&mut self, event: RawPlayerEvent, now_ms: u64) -> (s: WorkerStep)
        ensures
            s == (WorkerStep {
                emit: spec_notification_emit(old(self).player_status, event, now_ms),
                ..empty_step()
            }),
            final(self).player_status == spec_status_after_notification(old(self).player_status, event),
            final(self).token_task_installed == old(self).token_task_installed,
    {
        let mut s = Self::step_none();
        match event {
            RawPlayerEvent::Playing { position_ms } => {
                s.emit = Some(Event::Player(PlayerEvent::Playing(Self::compute_start_instant(now_ms, position_ms))));
                self.player_status = PlayerStatus::Playing;
            },
            RawPlayerEvent::Paused { position_ms } => {
                s.emit = Some(Event::Player(PlayerEvent::Paused(position_ms as u64)));
                self.player_status = PlayerStatus::Paused;
            },
            RawPlayerEvent::Stopped => {
                s.emit = Some(Event::Player(PlayerEvent::Stopped));
                self.player_status = PlayerStatus::Stopped;
            },
            RawPlayerEvent::EndOfTrack => {
                s.emit = Some(Event::Player(PlayerEvent::FinishedTrack));
            },
            RawPlayerEvent::TimeToPreloadNext => {
                s.emit = Some(Event::Queue(QueueEvent::PreloadTrackRequest));
            },
            RawPlayerEvent::Seeked { position_ms } => {
                let reconstructed = match self.player_status {
                    PlayerStatus::Playing => PlayerEvent::Playing(Self::compute_start_instant(now_ms, position_ms)),
                    PlayerStatus::Paused => PlayerEvent::Paused(position_ms as u64),
                    PlayerStatus::Stopped => PlayerEvent::Stopped,
                };
                s.emit = Some(Event::Player(reconstructed));
            },
            RawPlayerEvent::Unknown => {},
        }
        s
    }

    /// "Now minus elapsed position", clamped at zero.
    fn compute_start_instant(now_ms: u64, position_ms: u32) -> (r: u64)
        ensures
            r == start_instant(now_ms, position_ms),
    {
        if now_ms >= position_ms as u64 {
            now_ms - position_ms as u64
        } else {
            0
        }
    }
}

} // verus!
