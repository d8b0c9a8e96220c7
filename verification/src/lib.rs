//! OSDP (Open Supervised Device Protocol) engine: packet framing, the CP and
//! PD polling state machines, the secure-channel handshake and session
//! crypto, and the chunked file-transfer sub-protocol.
//!
//! One Control Panel (CP) polls and commands multiple Peripheral Devices
//! (PD) over a shared byte-stream link. The transport is abstracted behind
//! the [`Channel`] trait; the engine itself never blocks and performs all
//! state transitions inside a periodic, non-blocking `refresh` call.

use vstd::prelude::*;
use vstd::string::StringSliceAdditionalSpecFns;

mod channel;
pub mod codec;
pub mod commands;
mod config;
pub mod cp;
pub mod crypto;
pub mod events;
pub mod file;
pub mod pd;
mod pdinfo;
pub mod sc;
pub mod message;

pub use channel::Channel;
pub use channel::ChannelError;
pub use codec::FrameError;
pub use codec::PacketHeader;
pub use commands::OsdpCommand;
pub use commands::OsdpCommandBuzzer;
pub use commands::OsdpCommandComSet;
pub use commands::OsdpCommandFileTx;
pub use commands::OsdpCommandKeyset;
pub use commands::OsdpCommandLed;
pub use commands::OsdpCommandMfg;
pub use commands::OsdpCommandOutput;
pub use commands::OsdpCommandText;
pub use config::CpConfig;
pub use config::DeviceConfig;
pub use config::KeyStore;
pub use config::LogLevel;
pub use config::PdConfig;
pub use config::PdData;
pub use config::parse_pid;
pub use config::str_to_channel_id;
pub use cp::ControlPanel;
pub use cp::ControlPanelBuilder;
pub use events::EventQueue;
pub use events::OsdpEvent;
pub use events::OsdpEventCardRead;
pub use events::OsdpEventKeypad;
pub use events::OsdpEventMfg;
pub use events::OsdpEventStatus;
pub use file::OsdpFileOps;
pub use file::NullFileOps;
pub use pd::PeripheralDevice;
pub use pdinfo::PdCapEntity;
pub use pdinfo::PdCapability;
pub use pdinfo::PdId;
pub use pdinfo::PdInfo;
pub use pdinfo::PdInfoBuilder;
pub use sc::ScStatus;
pub use sc::SecureChannelSession;

verus! {

/// Errors surfaced to the embedding application. Transport and frame level
/// failures are absorbed and retried internally; only terminal conditions
/// reach this type.
#[derive(Debug, Clone)]
pub enum OsdpError {
    /// PD info error
    PdInfo(&'static str),
    /// Command build/send error
    Command,
    /// Event build/send error
    Event,
    /// PD/CP status query error
    Query(&'static str),
    /// File transfer error
    FileTransfer(&'static str),
    /// CP/PD device setup failed
    Setup,
    /// String parse error
    Parse(String),
    /// OSDP channel error
    Channel(&'static str),
    /// PD info build error
    PdInfoBuilder(&'static str),
    /// Unknown error
    Unknown,
}

impl From<ChannelError> for OsdpError {
    fn from(value: ChannelError) -> (r: OsdpError) {
        match value {
            ChannelError::WouldBlock => OsdpError::Channel("WouldBlock"),
            ChannelError::TransportError => OsdpError::Channel("TransportError"),
        }
    }
}

impl vstd::std_specs::convert::FromSpecImpl<ChannelError> for OsdpError {
    open spec fn obeys_from_spec() -> bool {
        false
    }

    open spec fn from_spec(t: ChannelError) -> OsdpError {
        arbitrary()
    }
}

/// OSDP setup flags, modifying how a device context behaves.
#[derive(Clone, Copy, Debug, PartialEq, Eq, Structural)]
pub struct OsdpFlag {
    /// Make security conscious assumptions where possible: refuse the
    /// default (install mode) key and refuse PDs that never complete a
    /// secure-channel handshake.
    pub enforce_secure: bool,
    /// Allow one secure-channel session with the well-known default key,
    /// intended only for provisioning.
    pub install_mode: bool,
    /// When set, the CP ignores unknown, unsolicited responses instead of
    /// failing the PD.
    pub ignore_unsolicited: bool,
}

impl OsdpFlag {
    /// The empty flag set.
    pub fn empty() -> (r: OsdpFlag)
        ensures
            r == (OsdpFlag { enforce_secure: false, install_mode: false, ignore_unsolicited: false }),
    {
        OsdpFlag { enforce_secure: false, install_mode: false, ignore_unsolicited: false }
    }

    /// The flag set holding only `enforce_secure`.
    pub fn enforce_secure() -> (r: OsdpFlag)
        ensures
            r == (OsdpFlag { enforce_secure: true, install_mode: false, ignore_unsolicited: false }),
    {
        OsdpFlag { enforce_secure: true, install_mode: false, ignore_unsolicited: false }
    }

    /// The flag set holding only `install_mode`.
    pub fn install_mode() -> (r: OsdpFlag)
        ensures
            r == (OsdpFlag { enforce_secure: false, install_mode: true, ignore_unsolicited: false }),
    {
        OsdpFlag { enforce_secure: false, install_mode: true, ignore_unsolicited: false }
    }

    /// The flag set holding only `ignore_unsolicited`.
    pub fn ignore_unsolicited() -> (r: OsdpFlag)
        ensures
            r == (OsdpFlag { enforce_secure: false, install_mode: false, ignore_unsolicited: true }),
    {
        OsdpFlag { enforce_secure: false, install_mode: false, ignore_unsolicited: true }
    }

    /// The union of the flags of `self` and `other`, as a spec-level value.
    pub open spec fn spec_union(self, other: OsdpFlag) -> OsdpFlag {
        OsdpFlag {
            enforce_secure: self.enforce_secure || other.enforce_secure,
            install_mode: self.install_mode || other.install_mode,
            ignore_unsolicited: self.ignore_unsolicited || other.ignore_unsolicited,
        }
    }

    /// The flags of `self` with those of `other` cleared, as a spec-level
    /// value.
    pub open spec fn spec_minus(self, other: OsdpFlag) -> OsdpFlag {
        OsdpFlag {
            enforce_secure: self.enforce_secure && !other.enforce_secure,
            install_mode: self.install_mode && !other.install_mode,
            ignore_unsolicited: self.ignore_unsolicited && !other.ignore_unsolicited,
        }
    }

    /// Parse the name of a single flag. Succeeds exactly on the three
    /// flag names, each yielding the flag set holding that flag alone.
    pub fn parse(s: &str) -> (r: Result<OsdpFlag, OsdpError>)
        ensures
            r is Ok <==> (s.spec_bytes() == "EnforceSecure".spec_bytes() || s.spec_bytes()
                == "InstallMode".spec_bytes() || s.spec_bytes() == "IgnoreUnsolicited".spec_bytes()),
            r matches Ok(f) ==> ((s.spec_bytes() == "EnforceSecure".spec_bytes() && f == (OsdpFlag {
                enforce_secure: true,
                install_mode: false,
                ignore_unsolicited: false,
            })) || (s.spec_bytes() == "InstallMode".spec_bytes() && f == (OsdpFlag {
                enforce_secure: false,
                install_mode: true,
                ignore_unsolicited: false,
            })) || (s.spec_bytes() == "IgnoreUnsolicited".spec_bytes() && f == (OsdpFlag {
                enforce_secure: false,
                install_mode: false,
                ignore_unsolicited: true,
            }))),
    {
        if config::str_eq(s, "EnforceSecure") {
            Ok(OsdpFlag::enforce_secure())
        } else if config::str_eq(s, "InstallMode") {
            Ok(OsdpFlag::install_mode())
        } else if config::str_eq(s, "IgnoreUnsolicited") {
            Ok(OsdpFlag::ignore_unsolicited())
        } else {
            Err(OsdpError::Parse(s.to_owned()))
        }
    }

    /// Set (or clear) every flag of `flag` in `self`.
    pub fn set(&mut self, flag: OsdpFlag, value: bool)
        ensures
            value ==> *final(self) == old(self).spec_union(flag),
            !value ==> *final(self) == old(self).spec_minus(flag),
    {
        if value {
            self.enforce_secure = self.enforce_secure || flag.enforce_secure;
            self.install_mode = self.install_mode || flag.install_mode;
            self.ignore_unsolicited = self.ignore_unsolicited || flag.ignore_unsolicited;
        } else {
            self.enforce_secure = self.enforce_secure && !flag.enforce_secure;
            self.install_mode = self.install_mode && !flag.install_mode;
            self.ignore_unsolicited = self.ignore_unsolicited && !flag.ignore_unsolicited;
        }
    }

    /// True when every flag set in `other` is also set in `self`.
    pub fn contains(&self, other: OsdpFlag) -> (r: bool)
        ensures
            r == ((other.enforce_secure ==> self.enforce_secure) && (other.install_mode
                ==> self.install_mode) && (other.ignore_unsolicited ==> self.ignore_unsolicited)),
    {
        (!other.enforce_secure || self.enforce_secure) && (!other.install_mode
            || self.install_mode) && (!other.ignore_unsolicited || self.ignore_unsolicited)
    }

    /// The flags packed as a bit mask.
    pub fn bits(&self) -> (r: u32)
        ensures
            r == spec_flag_bits(*self),
    {
        (if self.enforce_secure {
            1u32
        } else {
            0u32
        }) | (if self.install_mode {
            2u32
        } else {
            0u32
        }) | (if self.ignore_unsolicited {
            4u32
        } else {
            0u32
        })
    }
}

/// The bit-mask form of a flag set.
pub open spec fn spec_flag_bits(f: OsdpFlag) -> u32 {
    ((if f.enforce_secure { 1u32 } else { 0u32 }) | (if f.install_mode { 2u32 } else { 0u32 }) | (
    if f.ignore_unsolicited { 4u32 } else { 0u32 }))
}

impl core::str::FromStr for OsdpFlag {
    type Err = OsdpError;

    fn from_str(s: &str) -> Result<Self, Self::Err> {
        OsdpFlag::parse(s)
    }
}

/// Trait to convert between BigEndian and LittleEndian types.
pub trait ConvertEndian {
    /// Return `Self` as BigEndian.
    fn as_be(&self) -> u32;

    /// Return `Self` as LittleEndian.
    fn as_le(&self) -> u32;
}

/// The byte-swapped form of a 32-bit value.
pub open spec fn spec_swap32(x: u32) -> u32 {
    (((x & 0xff) << 24) | (((x >> 8) & 0xff) << 16) | (((x >> 16) & 0xff) << 8) | ((x >> 24)
        & 0xff))
}

/// Byte-swap a 32-bit value.
pub fn swap_bytes32(x: u32) -> (r: u32)
    ensures
        r == spec_swap32(x),
{
    ((x & 0xff) << 24) | (((x >> 8) & 0xff) << 16) | (((x >> 16) & 0xff) << 8) | ((x >> 24) & 0xff)
}

impl ConvertEndian for u32 {
    fn as_be(&self) -> u32 {
        swap_bytes32(*self)
    }

    fn as_le(&self) -> u32 {
        *self
    }
}

/// Get the library version.
pub fn get_version() -> (r: String)
    ensures
        r@ == "0.1.0"@,
{
    "0.1.0".to_owned()
}

/// Get a short description of this library build.
pub fn get_source_info() -> (r: String)
    ensures
        r@ == "osdp protocol engine"@,
{
    "osdp protocol engine".to_owned()
}

} // verus!
