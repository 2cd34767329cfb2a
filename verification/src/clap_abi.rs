//! The values of the CLAP ABI constants that the validator's decisions read.

use vstd::prelude::*;

verus! {

/// `CLAP_INVALID_ID`: the ID that stands for "no ID".
pub const INVALID_ID: u32 = 0xFFFF_FFFFu32;

/// `CLAP_AUDIO_PORT_IS_MAIN`.
pub const AUDIO_PORT_IS_MAIN: u32 = 1u32;
/// `CLAP_AUDIO_PORT_SUPPORTS_64BITS`.
pub const AUDIO_PORT_SUPPORTS_64BITS: u32 = 2u32;
/// `CLAP_AUDIO_PORT_PREFERS_64BITS`.
pub const AUDIO_PORT_PREFERS_64BITS: u32 = 4u32;
/// `CLAP_AUDIO_PORT_REQUIRES_COMMON_SAMPLE_SIZE`.
pub const AUDIO_PORT_REQUIRES_COMMON_SAMPLE_SIZE: u32 = 8u32;

/// `CLAP_AUDIO_PORTS_RESCAN_NAMES`.
pub const AUDIO_PORTS_RESCAN_NAMES: u32 = 1u32;
/// `CLAP_NOTE_PORTS_RESCAN_ALL`.
pub const NOTE_PORTS_RESCAN_ALL: u32 = 1u32;
/// `CLAP_NOTE_PORTS_RESCAN_NAMES`.
pub const NOTE_PORTS_RESCAN_NAMES: u32 = 2u32;
/// `CLAP_PARAM_RESCAN_VALUES`.
pub const PARAM_RESCAN_VALUES: u32 = 1u32;
/// `CLAP_PARAM_RESCAN_TEXT`.
pub const PARAM_RESCAN_TEXT: u32 = 2u32;
/// `CLAP_PARAM_RESCAN_INFO`.
pub const PARAM_RESCAN_INFO: u32 = 4u32;
/// `CLAP_PARAM_RESCAN_ALL`.
pub const PARAM_RESCAN_ALL: u32 = 8u32;

/// `CLAP_PROCESS_ERROR`.
pub const PROCESS_ERROR: i32 = 0i32;
/// `CLAP_PROCESS_CONTINUE`.
pub const PROCESS_CONTINUE: i32 = 1i32;
/// `CLAP_PROCESS_CONTINUE_IF_NOT_QUIET`.
pub const PROCESS_CONTINUE_IF_NOT_QUIET: i32 = 2i32;
/// `CLAP_PROCESS_TAIL`.
pub const PROCESS_TAIL: i32 = 3i32;
/// `CLAP_PROCESS_SLEEP`.
pub const PROCESS_SLEEP: i32 = 4i32;

/// `CLAP_CORE_EVENT_SPACE_ID`.
pub const CORE_EVENT_SPACE_ID: u16 = 0u16;
/// `CLAP_EVENT_NOTE_ON`.
pub const EVENT_NOTE_ON: u16 = 0u16;
/// `CLAP_EVENT_NOTE_OFF`.
pub const EVENT_NOTE_OFF: u16 = 1u16;
/// `CLAP_EVENT_NOTE_CHOKE`.
pub const EVENT_NOTE_CHOKE: u16 = 2u16;
/// `CLAP_EVENT_NOTE_END`.
pub const EVENT_NOTE_END: u16 = 3u16;
/// `CLAP_EVENT_NOTE_EXPRESSION`.
pub const EVENT_NOTE_EXPRESSION: u16 = 4u16;
/// `CLAP_EVENT_PARAM_VALUE`.
pub const EVENT_PARAM_VALUE: u16 = 5u16;
/// `CLAP_EVENT_PARAM_MOD`.
pub const EVENT_PARAM_MOD: u16 = 6u16;
/// `CLAP_EVENT_TRANSPORT`.
pub const EVENT_TRANSPORT: u16 = 9u16;
/// `CLAP_EVENT_MIDI`.
pub const EVENT_MIDI: u16 = 10u16;

} // verus!
