//! The playback engine's decisions. The engine thread decodes audio, talks to
//! the output device and sends events; what it does in answer to each command
//! and to each decoding step is decided here, from its state and the outcome
//! of the work it did.

use vstd::prelude::*;
use crate::types::{PlayState, ReplayGainMode, TrackId, MetadataUpdate};

verus! {

/// Commands that clients send to the engine. Floating-point values travel as
/// the bit patterns of their `f32` values; a seek target is whole seconds plus
/// nanoseconds.
#[derive(Debug)]
pub enum PlayerCommand {
    LoadTrack(String),
    Play,
    Pause,
    TogglePlayPause,
    Stop,
    SeekTo { secs: u64, subsec_nanos: u32 },
    NextTrack,
    PreviousTrack,
    SetVolume(u32),
    SetMute(bool),
    EnqueueTrack(TrackId),
    RemoveFromQueue(usize),
    ClearQueue,
    SetEqualizerBand { band_index: usize, gain_db_bits: u32 },
    SetEqualizerEnabled(bool),
    SetReplayGainMode(ReplayGainMode),
    UpdateTrackMetadata { track_id: TrackId, metadata: MetadataUpdate },
    SetRating { track_id: TrackId, rating: u8 },
}

/// Stream parameters of an opened decoder.
#[derive(Debug, Clone, Copy, PartialEq, Eq, Structural)]
pub struct DecoderInfo {
    pub sample_rate: u32,
    pub channels: usize,
    pub duration_ms: u64,
}

/// The outcome of the work a command needed before the engine decides.
#[derive(Debug)]
pub enum CommandOutcome {
    /// The command needed no work.
    NoWork,
    /// The file of a `LoadTrack` was opened.
    Opened(DecoderInfo),
    /// The file of a `LoadTrack` could not be opened; the message says why.
    OpenFailed(String),
    /// The active decoder reached the target of a `SeekTo`.
    SeekDone,
    /// The active decoder could not seek.
    SeekFailed,
}

/// What the engine thread must do after a decision.
#[derive(Debug, Clone, Copy, PartialEq, Eq, Structural)]
pub enum EngineEffect {
    /// Make the decoder just opened the active one.
    InstallDecoder,
    /// Drop the active decoder.
    DropDecoder,
    /// Discard the decoded samples not yet sent to the output.
    ClearBatch,
    /// Set the volume controller's volume (an `f32` bit pattern).
    SetVolume(u32),
    /// Mute or unmute the volume controller.
    SetMute(bool),
    /// Set one equalizer band's gain (an `f32` bit pattern, in dB).
    SetEqualizerBand { band_index: usize, gain_db_bits: u32 },
    /// Enable or disable the equalizer.
    SetEqualizerEnabled(bool),
    /// Run the equalizer and the volume controller over the new samples.
    ProcessBatch,
}

/// Events the engine sends to its subscribers.
#[derive(Debug, Clone, PartialEq, Eq)]
pub enum EngineEvent {
    StateChanged(PlayState),
    TrackEnded,
    PositionUpdated { current_ms: u64, total_ms: u64 },
    VolumeChanged(u32),
    MuteChanged(bool),
    ErrorOccurred(String),
}

/// The engine's playback state.
#[derive(Debug)]
pub struct EngineCore {
    pub state: PlayState,
    pub current_file: Option<String>,
    pub decoded_samples_count: u64,
    pub total_duration_ms: u64,
    pub decoder: Option<DecoderInfo>,
}

/// `x` when positive, otherwise 1 (the `max(1)` guard against division by zero).
pub open spec fn at_least_one(x: int) -> int {
    if x >= 1 {
        x
    } else {
        1
    }
}

/// Milliseconds of a seek target, as `Duration::as_millis` truncated to `u64`.
pub open spec fn seek_millis(secs: u64, subsec_nanos: u32) -> int {
    ((secs as int * 1000 + subsec_nanos as int / 1_000_000) % 0x1_0000_0000_0000_0000) as int
}

/// The sample count a seek to `millis` milliseconds corresponds to.
pub open spec fn samples_at(millis: int, info: DecoderInfo) -> int {
    millis * at_least_one(info.sample_rate as int) * at_least_one(info.channels as int) / 1000
}

/// The command can be decided without an arithmetic overflow: a seek's sample
/// count must fit in a `u64`.
pub open spec fn command_in_range(core: EngineCore, cmd: PlayerCommand, outcome: CommandOutcome) -> bool {
    match (cmd, outcome) {
        (PlayerCommand::SeekTo { secs, subsec_nanos }, CommandOutcome::SeekDone) => match core.decoder {
            Some(info) => seek_millis(secs, subsec_nanos) * at_least_one(info.sample_rate as int)
                * at_least_one(info.channels as int) <= u64::MAX,
            None => true,
        },
        _ => true,
    }
}

/// The decision the engine makes for `cmd`, given what the work for it
/// produced: the next state, the events to send and the effects to carry out.
pub open spec fn decide(core: EngineCore, cmd: PlayerCommand, outcome: CommandOutcome) -> (
    EngineCore,
    Seq<EngineEvent>,
    Seq<EngineEffect>,
) {
    match cmd {
        PlayerCommand::LoadTrack(path) => match outcome {
            CommandOutcome::Opened(info) => (
                EngineCore {
                    state: PlayState::Playing,
                    current_file: Some(path),
                    decoded_samples_count: 0,
                    total_duration_ms: info.duration_ms,
                    decoder: Some(info),
                },
                seq![EngineEvent::StateChanged(PlayState::Playing)],
                seq![EngineEffect::InstallDecoder, EngineEffect::ClearBatch],
            ),
            CommandOutcome::OpenFailed(msg) => (core, seq![EngineEvent::ErrorOccurred(msg)], seq![]),
            _ => (core, seq![], seq![]),
        },
        PlayerCommand::Play => if core.decoder is Some {
            (
                EngineCore { state: PlayState::Playing, ..core },
                seq![EngineEvent::StateChanged(PlayState::Playing)],
                seq![],
            )
        } else {
            (core, seq![], seq![])
        },
        PlayerCommand::Pause => (
            EngineCore { state: PlayState::Paused, ..core },
            seq![EngineEvent::StateChanged(PlayState::Paused)],
            seq![],
        ),
        PlayerCommand::TogglePlayPause => {
            let next = if core.state == PlayState::Playing {
                PlayState::Paused
            } else {
                PlayState::Playing
            };
            (EngineCore { state: next, ..core }, seq![EngineEvent::StateChanged(next)], seq![])
        },
        PlayerCommand::Stop => (
            EngineCore {
                state: PlayState::Stopped,
                decoder: None,
                decoded_samples_count: 0,
                ..core
            },
            seq![EngineEvent::StateChanged(PlayState::Stopped)],
            seq![EngineEffect::DropDecoder, EngineEffect::ClearBatch],
        ),
        PlayerCommand::SeekTo { secs, subsec_nanos } => match (core.decoder, outcome) {
            (Some(info), CommandOutcome::SeekDone) => (
                EngineCore {
                    decoded_samples_count: samples_at(seek_millis(secs, subsec_nanos), info) as u64,
                    ..core
                },
                seq![],
                seq![EngineEffect::ClearBatch],
            ),
            _ => (core, seq![], seq![]),
        },
        PlayerCommand::SetVolume(bits) => (
            core,
            seq![EngineEvent::VolumeChanged(bits)],
            seq![EngineEffect::SetVolume(bits)],
        ),
        PlayerCommand::SetMute(muted) => (
            core,
            seq![EngineEvent::MuteChanged(muted)],
            seq![EngineEffect::SetMute(muted)],
        ),
        PlayerCommand::SetEqualizerBand { band_index, gain_db_bits } => (
            core,
            seq![],
            seq![EngineEffect::SetEqualizerBand { band_index, gain_db_bits }],
        ),
        PlayerCommand::SetEqualizerEnabled(enabled) => (
            core,
            seq![],
            seq![EngineEffect::SetEqualizerEnabled(enabled)],
        ),
        _ => (core, seq![], seq![]),
    }
}

/// The work a command needs before the engine decides: `LoadTrack` opens its
/// file, `SeekTo` seeks the active decoder (when there is one).
#[derive(Debug, Clone, Copy, PartialEq, Eq, Structural)]
pub enum CommandWork {
    Nothing,
    OpenFile,
    SeekDecoder,
}

pub open spec fn spec_work_for(core: EngineCore, cmd: PlayerCommand) -> CommandWork {
    match cmd {
        PlayerCommand::LoadTrack(_) => CommandWork::OpenFile,
        PlayerCommand::SeekTo { .. } => if core.decoder is Some {
            CommandWork::SeekDecoder
        } else {
            CommandWork::Nothing
        },
        _ => CommandWork::Nothing,
    }
}

fn single_event(e: EngineEvent) -> (v: Vec<EngineEvent>)
    ensures
        v@ == seq![e],
{
    let mut v = Vec::new();
    v.push(e);
    v
}

fn single_effect(e: EngineEffect) -> (v: Vec<EngineEffect>)
    ensures
        v@ == seq![e],
{
    let mut v = Vec::new();
    v.push(e);
    v
}

fn two_effects(a: EngineEffect, b: EngineEffect) -> (v: Vec<EngineEffect>)
    ensures
        v@ == seq![a, b],
{
    let mut v = Vec::new();
    v.push(a);
    v.push(b);
    v
}

impl EngineCore {
    /// A stopped engine with no track.
    pub fn new() -> (c: Self)
        ensures
            c.state == PlayState::Stopped,
            c.current_file is None,
            c.decoded_samples_count == 0,
            c.total_duration_ms == 0,
            c.decoder is None,
    {
        EngineCore {
            state: PlayState::Stopped,
            current_file: None,
            decoded_samples_count: 0,
            total_duration_ms: 0,
            decoder: None,
        }
    }

    /// The work `cmd` needs before [`EngineCore::handle_command`] can decide.
    pub fn work_for(&self, cmd: &PlayerCommand) -> (w: CommandWork)
        ensures
            w == spec_work_for(*self, *cmd),
    {
        match cmd {
            PlayerCommand::LoadTrack(_) => CommandWork::OpenFile,
            PlayerCommand::SeekTo { .. } => if self.decoder.is_some() {
                CommandWork::SeekDecoder
            } else {
                CommandWork::Nothing
            },
            _ => CommandWork::Nothing,
        }
    }

    /// Decides what the engine does for `cmd` (see [`decide`]).
    pub fn handle_command(&mut self, cmd: PlayerCommand, outcome: CommandOutcome) -> (r: (
        Vec<EngineEvent>,
        Vec<EngineEffect>,
    ))
        requires
            command_in_range(*old(self), cmd, outcome),
        ensures
            (*final(self), r.0@, r.1@) == decide(*old(self), cmd, outcome),
    {
        match cmd {
            PlayerCommand::LoadTrack(path) => match outcome {
                CommandOutcome::Opened(info) => {
                    self.total_duration_ms = info.duration_ms;
                    self.decoded_samples_count = 0;
                    self.current_file = Some(path);
                    self.decoder = Some(info);
                    self.state = PlayState::Playing;
                    (
                        single_event(EngineEvent::StateChanged(PlayState::Playing)),
                        two_effects(EngineEffect::InstallDecoder, EngineEffect::ClearBatch),
                    )
                },
                CommandOutcome::OpenFailed(msg) => (
                    single_event(EngineEvent::ErrorOccurred(msg)),
                    Vec::new(),
                ),
                _ => (Vec::new(), Vec::new()),
            },
            PlayerCommand::Play => {
                if self.decoder.is_some() {
                    self.state = PlayState::Playing;
                    (single_event(EngineEvent::StateChanged(PlayState::Playing)), Vec::new())
                } else {
                    (Vec::new(), Vec::new())
                }
            },
            PlayerCommand::Pause => {
                self.state = PlayState::Paused;
                (single_event(EngineEvent::StateChanged(PlayState::Paused)), Vec::new())
            },
            PlayerCommand::TogglePlayPause => {
                self.state = match self.state {
                    PlayState::Playing => PlayState::Paused,
                    _ => PlayState::Playing,
                };
                (single_event(EngineEvent::StateChanged(self.state)), Vec::new())
            },
            PlayerCommand::Stop => {
                self.state = PlayState::Stopped;
                self.decoder = None;
                self.decoded_samples_count = 0;
                (
                    single_event(EngineEvent::StateChanged(PlayState::Stopped)),
                    two_effects(EngineEffect::DropDecoder, EngineEffect::ClearBatch),
                )
            },
            PlayerCommand::SeekTo { secs, subsec_nanos } => {
                match (self.decoder, outcome) {
                    (Some(info), CommandOutcome::SeekDone) => {
                        let millis = seek_millis_exec(secs, subsec_nanos);
                        let sr: u64 = if info.sample_rate >= 1 {
                            info.sample_rate as u64
                        } else {
                            1
                        };
                        let ch: u64 = if info.channels >= 1 {
                            info.channels as u64
                        } else {
                            1
                        };
                        proof {
                            assert(millis * sr <= millis * sr * ch) by (nonlinear_arith)
                                requires ch >= 1;
                        }
                        self.decoded_samples_count = (millis * sr * ch) / 1000;
                        (Vec::new(), single_effect(EngineEffect::ClearBatch))
                    },
                    _ => (Vec::new(), Vec::new()),
                }
            },
            PlayerCommand::SetVolume(bits) => (
                single_event(EngineEvent::VolumeChanged(bits)),
                single_effect(EngineEffect::SetVolume(bits)),
            ),
            PlayerCommand::SetMute(muted) => (
                single_event(EngineEvent::MuteChanged(muted)),
                single_effect(EngineEffect::SetMute(muted)),
            ),
            PlayerCommand::SetEqualizerBand { band_index, gain_db_bits } => (
                Vec::new(),
                single_effect(EngineEffect::SetEqualizerBand { band_index, gain_db_bits }),
            ),
            PlayerCommand::SetEqualizerEnabled(enabled) => (
                Vec::new(),
                single_effect(EngineEffect::SetEqualizerEnabled(enabled)),
            ),
            _ => (Vec::new(), Vec::new()),
        }
    }
}

impl EngineCore {
    /// After a decoding step of the active decoder: at the end of the stream
    /// playback stops and the decoder is dropped; otherwise the new samples
    /// go through the equalizer and the volume controller.
    pub fn decode_finished(&mut self, has_more: bool) -> (r: (Vec<EngineEvent>, Vec<EngineEffect>))
        ensures
            has_more ==> *final(self) == *old(self) && r.0@ == Seq::<EngineEvent>::empty()
                && r.1@ == seq![EngineEffect::ProcessBatch],
            !has_more ==> *final(self) == (EngineCore {
                state: PlayState::Stopped,
                decoder: None,
                ..*old(self)
            }) && r.0@ == seq![EngineEvent::TrackEnded, EngineEvent::StateChanged(PlayState::Stopped)]
                && r.1@ == seq![EngineEffect::DropDecoder],
    {
        if has_more {
            (Vec::new(), single_effect(EngineEffect::ProcessBatch))
        } else {
            self.state = PlayState::Stopped;
            self.decoder = None;
            let mut events = Vec::new();
            events.push(EngineEvent::TrackEnded);
            events.push(EngineEvent::StateChanged(PlayState::Stopped));
            (events, single_effect(EngineEffect::DropDecoder))
        }
    }

    /// After a decoding error: the error is reported, playback stops and the
    /// decoder is dropped.
    pub fn decode_failed(&mut self, message: String) -> (r: (Vec<EngineEvent>, Vec<EngineEffect>))
        ensures
            *final(self) == (EngineCore { state: PlayState::Stopped, decoder: None, ..*old(self) }),
            r.0@ == seq![EngineEvent::ErrorOccurred(message)],
            r.1@ == seq![EngineEffect::DropDecoder],
    {
        self.state = PlayState::Stopped;
        self.decoder = None;
        (single_event(EngineEvent::ErrorOccurred(message)), single_effect(EngineEffect::DropDecoder))
    }

    /// Counts samples handed to the output.
    pub fn samples_sent(&mut self, count: u64)
        requires
            old(self).decoded_samples_count + count <= u64::MAX,
        ensures
            *final(self) == (EngineCore {
                decoded_samples_count: (old(self).decoded_samples_count + count) as u64,
                ..*old(self)
            }),
    {
        self.decoded_samples_count = self.decoded_samples_count + count;
    }

    /// In the playing state without a decoder there is nothing to play: the
    /// engine stops. In any other case nothing changes.
    pub fn settle(&mut self)
        ensures
            old(self).state == PlayState::Playing && old(self).decoder is None ==> *final(self) == (
            EngineCore { state: PlayState::Stopped, ..*old(self) }),
            !(old(self).state == PlayState::Playing && old(self).decoder is None) ==> *final(self)
                == *old(self),
    {
        if self.state == PlayState::Playing && self.decoder.is_none() {
            self.state = PlayState::Stopped;
        }
    }

    /// The playback position to report: milliseconds played (from the samples
    /// sent, the sample rate and the channel count) and the total length (at
    /// least 1). Nothing is reported without a decoder.
    pub fn position(&self) -> (r: Option<EngineEvent>)
        requires
            self.decoded_samples_count * 1000 <= u64::MAX,
            self.decoder matches Some(info) ==> at_least_one(info.sample_rate as int) * at_least_one(
                info.channels as int,
            ) <= u64::MAX,
        ensures
            match self.decoder {
                Some(info) => r == Some(EngineEvent::PositionUpdated {
                    current_ms: (self.decoded_samples_count * 1000 / (at_least_one(info.sample_rate as int)
                        * at_least_one(info.channels as int))) as u64,
                    total_ms: at_least_one(self.total_duration_ms as int) as u64,
                }),
                None => r is None,
            },
    {
        match self.decoder {
            Some(info) => {
                let sr: u64 = if info.sample_rate >= 1 {
                    info.sample_rate as u64
                } else {
                    1
                };
                let ch: u64 = if info.channels as u64 >= 1 {
                    info.channels as u64
                } else {
                    1
                };
                proof {
                    assert(sr * ch >= 1) by (nonlinear_arith)
                        requires sr >= 1, ch >= 1;
                }
                let denom = sr * ch;
                let current_ms = (self.decoded_samples_count * 1000) / denom;
                let total_ms = if self.total_duration_ms >= 1 {
                    self.total_duration_ms
                } else {
                    1
                };
                Some(EngineEvent::PositionUpdated { current_ms, total_ms })
            },
            None => None,
        }
    }
}

// ---------------------------------------------------------------------------
// Laws
// ---------------------------------------------------------------------------

/// Toggling twice returns a playing or paused engine to its state.
pub proof fn lemma_toggle_twice(core: EngineCore)
    requires
        core.state == PlayState::Playing || core.state == PlayState::Paused,
    ensures
        decide(
            decide(core, PlayerCommand::TogglePlayPause, CommandOutcome::NoWork).0,
            PlayerCommand::TogglePlayPause,
            CommandOutcome::NoWork,
        ).0 == core,
{
}

/// Stopping always leaves a stopped engine without a decoder, at the start.
pub proof fn lemma_stop_resets(core: EngineCore, outcome: CommandOutcome)
    ensures
        decide(core, PlayerCommand::Stop, outcome).0.state == PlayState::Stopped,
        decide(core, PlayerCommand::Stop, outcome).0.decoder is None,
        decide(core, PlayerCommand::Stop, outcome).0.decoded_samples_count == 0,
{
}

/// Without a decoder, `Play` changes nothing and says nothing.
pub proof fn lemma_play_needs_decoder(core: EngineCore, outcome: CommandOutcome)
    requires
        core.decoder is None,
    ensures
        decide(core, PlayerCommand::Play, outcome) == (core, Seq::<EngineEvent>::empty(), Seq::<EngineEffect>::empty()),
{
}

/// A track that opens plays from its start, with the length its decoder reports.
pub proof fn lemma_load_plays_from_start(core: EngineCore, path: String, info: DecoderInfo)
    ensures
        ({
            let next = decide(core, PlayerCommand::LoadTrack(path), CommandOutcome::Opened(info)).0;
            &&& next.state == PlayState::Playing
            &&& next.decoded_samples_count == 0
            &&& next.total_duration_ms == info.duration_ms
            &&& next.decoder == Some(info)
            &&& next.current_file == Some(path)
        }),
{
}

/// Pausing always leaves the engine paused, with its track, decoder, length
/// and position kept, tells the subscribers that it is paused and asks for no
/// work, whatever the engine was doing.
pub proof fn lemma_pause_pauses(core: EngineCore, outcome: CommandOutcome)
    ensures
        ({
            let (next, events, effects) = decide(core, PlayerCommand::Pause, outcome);
            &&& next.state == PlayState::Paused
            &&& next.current_file == core.current_file
            &&& next.decoder == core.decoder
            &&& next.decoded_samples_count == core.decoded_samples_count
            &&& next.total_duration_ms == core.total_duration_ms
            &&& events.len() == 1
            &&& events[0] == EngineEvent::StateChanged(PlayState::Paused)
            &&& effects.len() == 0
        }),
{
}

/// A playing engine pauses the same way whether it is told to pause or to
/// toggle, and a paused engine with a decoder plays again as it was.
pub proof fn lemma_pause_then_play(core: EngineCore)
    requires
        core.state == PlayState::Playing,
        core.decoder is Some,
    ensures
        decide(core, PlayerCommand::Pause, CommandOutcome::NoWork) == decide(
            core,
            PlayerCommand::TogglePlayPause,
            CommandOutcome::NoWork,
        ),
        decide(decide(core, PlayerCommand::Pause, CommandOutcome::NoWork).0, PlayerCommand::Play, CommandOutcome::NoWork).0
            == core,
{
    assert(decide(core, PlayerCommand::Pause, CommandOutcome::NoWork).1 =~= decide(
        core,
        PlayerCommand::TogglePlayPause,
        CommandOutcome::NoWork,
    ).1);
}

/// `Duration::as_millis` of a seek target, truncated to `u64`.
fn seek_millis_exec(secs: u64, subsec_nanos: u32) -> (m: u64)
    ensures
        m as int == seek_millis(secs, subsec_nanos),
{
    let wide: u128 = (secs as u128) * 1000 + (subsec_nanos as u128) / 1_000_000;
    let m = wide as u64;
    assert(m as int == wide as int % 0x1_0000_0000_0000_0000) by (bit_vector)
        requires m == wide as u64;
    m
}

} // verus!
