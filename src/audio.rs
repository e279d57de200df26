//! A mirror of the audio server's default output: the decisions of the
//! thread that turns server notifications into the shared volume state, and
//! how that state is shown.

use vstd::prelude::*;
use vstd::string::StringExecFns;

use crate::text::{dec, push_dec};

verus! {

/// The raw volume that the audio server calls 100%.
pub const NORMAL_VOLUME: u32 = 0x10000;

/// Volume and mute of one output, as the status line shows it.
#[derive(Clone, Copy, Debug, PartialEq, Eq, Structural)]
pub struct AudioState {
    pub volume: u32,
    pub muted: bool,
}

impl AudioState {
    /// What the mirror holds before the server has told anything.
    pub fn silent() -> (r: AudioState)
        ensures
            r.volume == 0,
            !r.muted,
    {
        AudioState { volume: 0, muted: false }
    }
}

/// A notification that reached the mirror's own thread.
pub enum AudioEvent {
    /// The server's default output is now the output of this name.
    DefaultOutputChanged(String),
    /// The named output reported its volume and mute.
    OutputChanged { name: String, state: AudioState },
}

/// What the mirror's thread asks of the server after an event.
pub enum AudioAction {
    Nothing,
    /// Ask for the current volume and mute of the named output.
    QueryOutput(String),
}

/// The mirror: the output it follows, and that output's last known state.
pub struct AudioMirror {
    followed: Option<String>,
    state: AudioState,
}

/// The text of an optional string.
pub open spec fn opt_name(n: Option<String>) -> Option<Seq<char>> {
    match n {
        Some(t) => Some(t@),
        None => None,
    }
}

/// Whether a report about output `name` concerns the followed output. Until
/// the server has named a default, the first output to report is taken as
/// the default.
pub open spec fn follows(followed: Option<Seq<char>>, name: Seq<char>) -> bool {
    followed is None || followed == Some(name)
}

impl AudioMirror {
    /// The name of the followed output, if any.
    pub closed spec fn followed_name(&self) -> Option<Seq<char>> {
        opt_name(self.followed)
    }

    /// The last known state of the followed output.
    pub closed spec fn current(&self) -> AudioState {
        self.state
    }

    /// A mirror that follows no output yet and shows volume 0, unmuted.
    pub fn new() -> (r: AudioMirror)
        ensures
            (r.followed_name() is None),
            r.current() == (AudioState { volume: 0, muted: false }),
    {
        AudioMirror { followed: None, state: AudioState::silent() }
    }

    /// The state that a reader copies out.
    pub fn snapshot(&self) -> (r: AudioState)
        ensures
            r == self.current(),
    {
        self.state
    }

    /// Applies one event. A new default output becomes the followed one and
    /// is queried afresh; a report about the followed output replaces the
    /// state; a report about any other output changes nothing.
    pub fn handle(&mut self, ev: AudioEvent) -> (r: AudioAction)
        ensures
            match ev {
                AudioEvent::DefaultOutputChanged(n) => {
                    &&& final(self).followed_name() == Some(n@)
                    &&& final(self).current() == old(self).current()
                    &&& r matches AudioAction::QueryOutput(q) && q@ == n@
                },
                AudioEvent::OutputChanged { name, state } => {
                    &&& r is Nothing
                    &&& if follows(old(self).followed_name(), name@) {
                        &&& final(self).followed_name() == Some(name@)
                        &&& final(self).current() == state
                    } else {
                        &&& final(self).followed_name() == old(self).followed_name()
                        &&& final(self).current() == old(self).current()
                    }
                },
            },
    {
        match ev {
            AudioEvent::DefaultOutputChanged(n) => {
                let q = n.clone();
                self.followed = Some(n);
                AudioAction::QueryOutput(q)
            },
            AudioEvent::OutputChanged { name, state } => {
                let accept = match &self.followed {
                    None => true,
                    Some(t) => *t == name,
                };
                if accept {
                    self.followed = Some(name);
                    self.state = state;
                }
                AudioAction::Nothing
            },
        }
    }
}

/// The icon for an unmuted volume: three tiers cut at 30 and 70.
pub open spec fn volume_icon_of(volume: nat) -> Seq<char> {
    if volume > 70 {
        "🔊"@
    } else if volume > 30 {
        "🔉"@
    } else {
        "🔈"@
    }
}

/// What the status line shows for an audio state.
pub open spec fn audio_text_of(s: AudioState) -> Seq<char> {
    if s.muted {
        "🔇"@
    } else {
        volume_icon_of(s.volume as nat) + " "@ + dec(s.volume as nat) + "%"@
    }
}

/// A muted output shows the same text whatever its volume, and an unmuted
/// one shows the icon of its volume's tier.
pub proof fn lemma_audio_text(a: AudioState, b: AudioState)
    ensures
        a.muted && b.muted ==> audio_text_of(a) == audio_text_of(b),
        !a.muted ==> audio_text_of(a).take(volume_icon_of(a.volume as nat).len() as int)
            == volume_icon_of(a.volume as nat),
{
    if !a.muted {
        let icon = volume_icon_of(a.volume as nat);
        let rest = " "@ + dec(a.volume as nat) + "%"@;
        assert(audio_text_of(a) =~= icon + rest);
        assert((icon + rest).take(icon.len() as int) =~= icon);
    }
}

/// The icon for an unmuted volume.
pub fn volume_icon(volume: u32) -> (r: &'static str)
    ensures
        r@ == volume_icon_of(volume as nat),
{
    if volume > 70 {
        "🔊"
    } else if volume > 30 {
        "🔉"
    } else {
        "🔈"
    }
}

/// The status text of an audio state: the muted glyph whatever the volume,
/// else the volume's icon and its percentage.
pub fn audio_text(s: AudioState) -> (r: String)
    ensures
        r@ == audio_text_of(s),
{
    if s.muted {
        String::from_str("🔇")
    } else {
        let mut out = String::from_str(volume_icon(s.volume));
        out.append(" ");
        push_dec(&mut out, s.volume as u64);
        out.append("%");
        out
    }
}

/// A raw volume as a percentage of the normal volume, rounded to the
/// nearest integer, halves upwards.
pub open spec fn percent_of_raw(raw: nat) -> nat {
    (raw * 100 + NORMAL_VOLUME as nat / 2) / NORMAL_VOLUME as nat
}

/// Converts a raw volume, as the server reports it, to a percentage.
pub fn volume_percent(raw: u32) -> (r: u32)
    ensures
        r as nat == percent_of_raw(raw as nat),
{
    let num: u64 = raw as u64 * 100 + 0x8000;
    let wide: u64 = num / 0x10000;
    assert(wide < 0x1_0000_0000) by (nonlinear_arith)
        requires
            wide == num / 0x10000,
            num < 0x1_0000_0000 * 101,
    ;
    wide as u32
}

/// What the session to the audio server reports while it is being set up.
#[derive(Clone, Copy, Debug, PartialEq, Eq, Structural)]
pub enum SessionState {
    Connecting,
    Ready,
    Failed,
    Terminated,
}

/// What the bootstrap does next.
#[derive(Clone, Copy, Debug, PartialEq, Eq, Structural)]
pub enum BootstrapStep {
    /// The session is ready: subscribe and go on.
    Proceed,
    /// The session cannot become ready: the process gives up.
    Abort,
    /// Wait for the next state change.
    Wait,
}

/// The bootstrap's decision on a session state.
pub fn bootstrap_step(s: SessionState) -> (r: BootstrapStep)
    ensures
        r == match s {
            SessionState::Ready => BootstrapStep::Proceed,
            SessionState::Failed | SessionState::Terminated => BootstrapStep::Abort,
            SessionState::Connecting => BootstrapStep::Wait,
        },
{
    match s {
        SessionState::Ready => BootstrapStep::Proceed,
        SessionState::Failed | SessionState::Terminated => BootstrapStep::Abort,
        SessionState::Connecting => BootstrapStep::Wait,
    }
}

/// Which part of the server a change notification is about.
#[derive(Clone, Copy, Debug, PartialEq, Eq, Structural)]
pub enum Facility {
    Server,
    Output,
    Other,
}

/// What the subscription asks the server after a notification.
#[derive(Clone, Copy, Debug, PartialEq, Eq, Structural)]
pub enum NotificationQuery {
    Nothing,
    /// Ask the server which output is now the default.
    ServerInfo,
    /// Ask for the volume and mute of the output with this index.
    OutputByIndex(u32),
}

/// Only changes are followed: a server change may name a new default
/// output, an output change may carry a new volume or mute.
pub fn notification_query(facility: Facility, changed: bool, index: u32) -> (r: NotificationQuery)
    ensures
        r == if !changed {
            NotificationQuery::Nothing
        } else {
            match facility {
                Facility::Server => NotificationQuery::ServerInfo,
                Facility::Output => NotificationQuery::OutputByIndex(index),
                Facility::Other => NotificationQuery::Nothing,
            }
        },
{
    if !changed {
        NotificationQuery::Nothing
    } else {
        match facility {
            Facility::Server => NotificationQuery::ServerInfo,
            Facility::Output => NotificationQuery::OutputByIndex(index),
            Facility::Other => NotificationQuery::Nothing,
        }
    }
}

} // verus!
