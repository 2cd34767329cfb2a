//! The host side of a plugin instance: which host extensions the validator offers, the thread
//! checks on the plugin's calls into the host, and what the fuzzer takes from the plugin's
//! callbacks.

use vstd::prelude::*;
use vstd::string::*;
use crate::plugin_state::CallbackEvent;
use crate::text::{chars_of, compare_chars};

verus! {

/// The host extensions the validator offers to plugins.
#[derive(Debug, Clone, Copy, PartialEq, Eq, Structural)]
pub enum HostExtension {
    AudioPorts,
    NotePorts,
    PresetLoad,
    Params,
    State,
    ThreadCheck,
    Latency,
    Tail,
    VoiceInfo,
}

/// The ID a plugin asks for a host extension by.
pub open spec fn extension_id(e: HostExtension) -> Seq<char> {
    match e {
        HostExtension::AudioPorts => "clap.audio-ports"@,
        HostExtension::NotePorts => "clap.note-ports"@,
        HostExtension::PresetLoad => "clap.preset-load/2"@,
        HostExtension::Params => "clap.params"@,
        HostExtension::State => "clap.state"@,
        HostExtension::ThreadCheck => "clap.thread-check"@,
        HostExtension::Latency => "clap.latency"@,
        HostExtension::Tail => "clap.tail"@,
        HostExtension::VoiceInfo => "clap.voice-info"@,
    }
}

impl HostExtension {
    /// The ID a plugin asks for this extension by.
    pub fn id(&self) -> (r: &'static str)
        ensures
            r@ == extension_id(*self),
    {
        match self {
            HostExtension::AudioPorts => "clap.audio-ports",
            HostExtension::NotePorts => "clap.note-ports",
            HostExtension::PresetLoad => "clap.preset-load/2",
            HostExtension::Params => "clap.params",
            HostExtension::State => "clap.state",
            HostExtension::ThreadCheck => "clap.thread-check",
            HostExtension::Latency => "clap.latency",
            HostExtension::Tail => "clap.tail",
            HostExtension::VoiceInfo => "clap.voice-info",
        }
    }
}

/// The host extension a plugin asks for by `id`, or `None` when the validator offers no
/// extension with that ID.
pub fn host_extension(id: &str) -> (r: Option<HostExtension>)
    ensures
        r matches Some(e) ==> extension_id(e) == id@,
        r is None ==> forall|e: HostExtension| extension_id(e) != id@,
{
    let all = [
        HostExtension::AudioPorts,
        HostExtension::NotePorts,
        HostExtension::PresetLoad,
        HostExtension::Params,
        HostExtension::State,
        HostExtension::ThreadCheck,
        HostExtension::Latency,
        HostExtension::Tail,
        HostExtension::VoiceInfo,
    ];
    let wanted = chars_of(id);
    let mut i: usize = 0;
    while i < 9
        invariant
            i <= 9,
            wanted@ == id@,
            all@ == seq![
                HostExtension::AudioPorts,
                HostExtension::NotePorts,
                HostExtension::PresetLoad,
                HostExtension::Params,
                HostExtension::State,
                HostExtension::ThreadCheck,
                HostExtension::Latency,
                HostExtension::Tail,
                HostExtension::VoiceInfo,
            ],
            forall|j: int| 0 <= j < i ==> extension_id(#[trigger] all@[j]) != id@,
        decreases 9 - i,
    {
        let e = all[i];
        let candidate = chars_of(e.id());
        if compare_chars(&candidate, &wanted) == 0 {
            return Some(e);
        }
        i = i + 1;
    }
    proof {
        assert forall|e: HostExtension| extension_id(e) != id@ by {
            match e {
                HostExtension::AudioPorts => assert(all@[0] == e),
                HostExtension::NotePorts => assert(all@[1] == e),
                HostExtension::PresetLoad => assert(all@[2] == e),
                HostExtension::Params => assert(all@[3] == e),
                HostExtension::State => assert(all@[4] == e),
                HostExtension::ThreadCheck => assert(all@[5] == e),
                HostExtension::Latency => assert(all@[6] == e),
                HostExtension::Tail => assert(all@[7] == e),
                HostExtension::VoiceInfo => assert(all@[8] == e),
            }
        }
    }
    None
}

/// Law: no two host extensions share an ID, so the extension a plugin gets for an ID is the one
/// with that ID.
pub proof fn law_extension_ids_distinct(a: HostExtension, b: HostExtension)
    ensures
        extension_id(a) == extension_id(b) ==> a == b,
{
    reveal_strlit("clap.audio-ports");
    reveal_strlit("clap.note-ports");
    reveal_strlit("clap.preset-load/2");
    reveal_strlit("clap.params");
    reveal_strlit("clap.state");
    reveal_strlit("clap.thread-check");
    reveal_strlit("clap.latency");
    reveal_strlit("clap.tail");
    reveal_strlit("clap.voice-info");
    if extension_id(a) == extension_id(b) && a != b {
        let (x, y) = (extension_id(a), extension_id(b));
        assert(x.len() != y.len() || x[5] != y[5] || x[6] != y[6] || x[7] != y[7]);
    }
}

/// A host function the plugin called from a thread it may not be called from.
#[derive(Debug, Clone, Copy, PartialEq, Eq, Structural)]
pub enum ThreadViolation {
    /// A main thread function was called from another thread.
    NotMainThread,
    /// An audio thread function was called from the main thread.
    AudioFunctionOnMainThread,
    /// An audio thread function was called from a thread that is neither the audio thread nor the
    /// main thread.
    AudioFunctionOnUnknownThread,
    /// A function that must not run on the audio thread was called from it.
    OnAudioThread,
}

/// A function that may only be called from the main thread.
pub fn check_main_thread(on_main_thread: bool) -> (r: Option<ThreadViolation>)
    ensures
        r == if on_main_thread {
            None::<ThreadViolation>
        } else {
            Some(ThreadViolation::NotMainThread)
        },
{
    if on_main_thread {
        None
    } else {
        Some(ThreadViolation::NotMainThread)
    }
}

/// A function that may only be called from the audio thread.
pub fn check_audio_thread(on_audio_thread: bool, on_main_thread: bool) -> (r: Option<ThreadViolation>)
    ensures
        r == if on_audio_thread {
            None::<ThreadViolation>
        } else if on_main_thread {
            Some(ThreadViolation::AudioFunctionOnMainThread)
        } else {
            Some(ThreadViolation::AudioFunctionOnUnknownThread)
        },
{
    if on_audio_thread {
        None
    } else if on_main_thread {
        Some(ThreadViolation::AudioFunctionOnMainThread)
    } else {
        Some(ThreadViolation::AudioFunctionOnUnknownThread)
    }
}

/// A function that must not be called from the audio thread.
pub fn check_not_audio_thread(on_audio_thread: bool) -> (r: Option<ThreadViolation>)
    ensures
        r == if on_audio_thread {
            Some(ThreadViolation::OnAudioThread)
        } else {
            None::<ThreadViolation>
        },
{
    if on_audio_thread {
        Some(ThreadViolation::OnAudioThread)
    } else {
        None
    }
}

/// What the fuzzer keeps track of between blocks: whether the plugin sleeps, and which of its
/// configurations have to be read again.
#[derive(Debug, Clone, Copy, PartialEq, Eq, Structural)]
pub struct FuzzFlags {
    pub is_sleeping: bool,
    pub audio_config_changed: bool,
    pub note_config_changed: bool,
    pub params_changed: bool,
}

impl FuzzFlags {
    /// The flags after the plugin made a callback: a process request wakes it, a full rescan of
    /// its audio or note ports has their configuration read again, and a full or info rescan of
    /// its parameters has them read again. Other callbacks change nothing.
    pub fn after_callback(self, event: CallbackEvent) -> (r: FuzzFlags)
        ensures
            r == match event {
                CallbackEvent::RequestProcess => FuzzFlags { is_sleeping: false, ..self },
                CallbackEvent::RescanAudioPortsAll => FuzzFlags { audio_config_changed: true, ..self },
                CallbackEvent::RescanNotePortsAll => FuzzFlags { note_config_changed: true, ..self },
                CallbackEvent::RescanParamsAll | CallbackEvent::RescanParamsInfo => FuzzFlags { params_changed: true, ..self },
                _ => self,
            },
    {
        match event {
            CallbackEvent::RequestProcess => FuzzFlags { is_sleeping: false, ..self },
            CallbackEvent::RescanAudioPortsAll => FuzzFlags { audio_config_changed: true, ..self },
            CallbackEvent::RescanNotePortsAll => FuzzFlags { note_config_changed: true, ..self },
            CallbackEvent::RescanParamsAll | CallbackEvent::RescanParamsInfo => FuzzFlags { params_changed: true, ..self },
            _ => self,
        }
    }
}

} // verus!
