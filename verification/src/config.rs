//! Device configuration data: the parsed form of a CP or PD setup, the
//! secure-channel key store, and small helpers for hex keys and channel
//! ids. Reading configuration files and touching the file system is the
//! embedding application's concern; this module only validates and carries
//! plain values.

use vstd::prelude::*;
use vstd::string::StringExecFns;
use vstd::string::StringSliceAdditionalSpecFns;

use crate::OsdpError;
use crate::OsdpFlag;
use crate::pdinfo::PdCapability;
use crate::pdinfo::PdId;
use crate::pdinfo::PdInfoBuilder;
use crate::pdinfo::spec_valid_address;

verus! {

/// True for an ASCII hex digit.
pub open spec fn spec_is_hex_digit(b: u8) -> bool {
    (0x30 <= b <= 0x39) || (0x41 <= b <= 0x46) || (0x61 <= b <= 0x66)
}

/// The value of an ASCII hex digit.
pub open spec fn spec_hex_val(b: u8) -> u8 {
    if 0x30 <= b <= 0x39 {
        (b - 0x30) as u8
    } else if 0x41 <= b <= 0x46 {
        (b - 0x41 + 10) as u8
    } else if 0x61 <= b <= 0x66 {
        (b - 0x61 + 10) as u8
    } else {
        0
    }
}

/// True when `bytes` is a well-formed hex string: even length, hex digits
/// only.
pub open spec fn spec_valid_hex(bytes: Seq<u8>) -> bool {
    bytes.len() % 2 == 0 && forall|j: int| 0 <= j < bytes.len() ==> spec_is_hex_digit(#[trigger] bytes[j])
}

/// The bytes a well-formed hex string denotes.
pub open spec fn spec_hex_decode(bytes: Seq<u8>) -> Seq<u8> {
    Seq::new(
        bytes.len() / 2,
        |i: int| (spec_hex_val(bytes[2 * i]) * 16 + spec_hex_val(bytes[2 * i + 1])) as u8,
    )
}

/// The lower-case hex character for a nibble.
pub open spec fn spec_hex_char(n: u8) -> char {
    if n < 10 {
        ((0x30 + n) as u8) as char
    } else {
        ((0x61 + n - 10) as u8) as char
    }
}

/// The ASCII code of the lower-case hex character for a nibble.
pub open spec fn spec_hex_code(n: u8) -> u8 {
    if n < 10 {
        (0x30 + n) as u8
    } else {
        (0x61 + n - 10) as u8
    }
}

/// The lower-case hex rendering of a byte sequence, as characters.
pub open spec fn spec_hex_str(bytes: Seq<u8>) -> Seq<char> {
    Seq::new(
        bytes.len() * 2,
        |i: int|
            if i % 2 == 0 {
                spec_hex_char(bytes[i / 2] / 16)
            } else {
                spec_hex_char(bytes[i / 2] % 16)
            },
    )
}

fn hex_val(b: u8) -> (r: u8)
    requires
        spec_is_hex_digit(b),
    ensures
        r == spec_hex_val(b),
        r < 16,
{
    if 0x30 <= b && b <= 0x39 {
        b - 0x30
    } else if 0x41 <= b && b <= 0x46 {
        b - 0x41 + 10
    } else {
        b - 0x61 + 10
    }
}

fn is_hex_digit(b: u8) -> (r: bool)
    ensures
        r == spec_is_hex_digit(b),
{
    (0x30 <= b && b <= 0x39) || (0x41 <= b && b <= 0x46) || (0x61 <= b && b <= 0x66)
}

/// Append the lower-case hex character of a nibble to a string.
fn push_hex_char(s: &mut String, n: u8)
    requires
        n < 16,
    ensures
        final(s)@ =~= old(s)@.push(spec_hex_char(n)),
{
    match n {
        0 => {
            proof {
                reveal_strlit("0");
            }
            s.append("0")
        },
        1 => {
            proof {
                reveal_strlit("1");
            }
            s.append("1")
        },
        2 => {
            proof {
                reveal_strlit("2");
            }
            s.append("2")
        },
        3 => {
            proof {
                reveal_strlit("3");
            }
            s.append("3")
        },
        4 => {
            proof {
                reveal_strlit("4");
            }
            s.append("4")
        },
        5 => {
            proof {
                reveal_strlit("5");
            }
            s.append("5")
        },
        6 => {
            proof {
                reveal_strlit("6");
            }
            s.append("6")
        },
        7 => {
            proof {
                reveal_strlit("7");
            }
            s.append("7")
        },
        8 => {
            proof {
                reveal_strlit("8");
            }
            s.append("8")
        },
        9 => {
            proof {
                reveal_strlit("9");
            }
            s.append("9")
        },
        10 => {
            proof {
                reveal_strlit("a");
            }
            s.append("a")
        },
        11 => {
            proof {
                reveal_strlit("b");
            }
            s.append("b")
        },
        12 => {
            proof {
                reveal_strlit("c");
            }
            s.append("c")
        },
        13 => {
            proof {
                reveal_strlit("d");
            }
            s.append("d")
        },
        14 => {
            proof {
                reveal_strlit("e");
            }
            s.append("e")
        },
        _ => {
            proof {
                reveal_strlit("f");
            }
            s.append("f")
        },
    }
}

/// Byte-wise string equality.
pub(crate) fn str_eq(a: &str, b: &str) -> (r: bool)
    ensures
        r == (a.spec_bytes() =~= b.spec_bytes()),
{
    let ab = a.as_bytes();
    let bb = b.as_bytes();
    if ab.len() != bb.len() {
        return false;
    }
    let mut i: usize = 0;
    while i < ab.len()
        invariant
            i <= ab@.len(),
            ab@.len() == bb@.len(),
            ab@ == a.spec_bytes(),
            bb@ == b.spec_bytes(),
            forall|j: int| 0 <= j < i ==> ab@[j] == bb@[j],
        decreases ab@.len() - i,
    {
        if ab[i] != bb[i] {
            return false;
        }
        i = i + 1;
    }
    true
}

/// The log verbosity a device is configured with.
#[derive(Clone, Copy, Debug, PartialEq, Eq, Structural)]
pub enum LogLevel {
    /// No logging.
    Off,
    /// Warnings and errors only.
    Warn,
    /// Informational messages.
    Info,
    /// Debug messages.
    Debug,
    /// Everything.
    Trace,
}

impl LogLevel {
    /// Parse a configured log level; anything unrecognized turns logging
    /// off, as the strictest reading of an unknown configuration.
    pub fn parse(s: &str) -> (r: LogLevel)
        ensures
            r == (if s.spec_bytes() == "INFO".spec_bytes() {
                LogLevel::Info
            } else if s.spec_bytes() == "DEBUG".spec_bytes() {
                LogLevel::Debug
            } else if s.spec_bytes() == "WARN".spec_bytes() {
                LogLevel::Warn
            } else if s.spec_bytes() == "TRACE".spec_bytes() {
                LogLevel::Trace
            } else {
                LogLevel::Off
            }),
    {
        if str_eq(s, "INFO") {
            LogLevel::Info
        } else if str_eq(s, "DEBUG") {
            LogLevel::Debug
        } else if str_eq(s, "WARN") {
            LogLevel::Warn
        } else if str_eq(s, "TRACE") {
            LogLevel::Trace
        } else {
            LogLevel::Off
        }
    }
}

/// Holder of one PD's secure-channel base key, remembering the path of the
/// backing store. Reading and writing that store is the application's
/// concern.
#[derive(Clone, Debug)]
pub struct KeyStore {
    pub store: String,
    /// The 16-byte secure-channel base key.
    pub key: [u8; 16],
}

impl KeyStore {
    /// Build a key store from the path of its backing file and the hex
    /// rendering of its key. Succeeds exactly on a 32-character hex string.
    pub fn create(store: String, key: &str) -> (r: Result<KeyStore, OsdpError>)
        ensures
            r is Ok <==> (spec_valid_hex(key.spec_bytes()) && key.spec_bytes().len() == 32),
            r matches Ok(ks) ==> ks.key@ =~= spec_hex_decode(key.spec_bytes()) && ks.store@
                == store@,
    {
        let key = Self::str_to_key(key)?;
        Ok(KeyStore { store, key })
    }

    /// The path of the backing store this key came from.
    pub fn store_path(&self) -> (r: &String)
        ensures
            r@ == self.store@,
    {
        &self.store
    }

    /// Decode a hex string into bytes. Succeeds exactly when the input has
    /// even length and holds hex digits only.
    pub fn decode_hex(s: &str) -> (r: Result<Vec<u8>, OsdpError>)
        ensures
            r is Ok <==> spec_valid_hex(s.spec_bytes()),
            r matches Ok(v) ==> v@ =~= spec_hex_decode(s.spec_bytes()),
    {
        let b = s.as_bytes();
        if b.len() % 2 != 0 {
            return Err(OsdpError::Parse("odd hex length".to_owned()));
        }
        let mut out: Vec<u8> = Vec::new();
        let mut i: usize = 0;
        while i + 1 < b.len()
            invariant
                i % 2 == 0,
                i <= b@.len(),
                b@.len() % 2 == 0,
                b@ == s.spec_bytes(),
                out@.len() == i / 2,
                forall|j: int| 0 <= j < i ==> spec_is_hex_digit(#[trigger] b@[j]),
                forall|j: int|
                    0 <= j < i / 2 ==> out@[j] == (spec_hex_val(b@[2 * j]) * 16 + spec_hex_val(
                        b@[2 * j + 1],
                    )) as u8,
            decreases b@.len() - i,
        {
            let hi = b[i];
            let lo = b[i + 1];
            if !is_hex_digit(hi) || !is_hex_digit(lo) {
                return Err(OsdpError::Parse("invalid hex digit".to_owned()));
            }
            out.push(hex_val(hi) * 16 + hex_val(lo));
            i = i + 2;
        }
        proof {
            assert(i == b@.len());
            assert(out@ =~= spec_hex_decode(s.spec_bytes()));
        }
        Ok(out)
    }

    /// Decode a hex string into a 16-byte key; the string must be exactly
    /// 32 hex digits.
    #[verifier::rlimit(50)]
    pub(crate) fn str_to_key(s: &str) -> (r: Result<[u8; 16], OsdpError>)
        ensures
            r is Ok <==> (spec_valid_hex(s.spec_bytes()) && s.spec_bytes().len() == 32),
            r matches Ok(k) ==> k@ =~= spec_hex_decode(s.spec_bytes()),
    {
        let v = Self::decode_hex(s)?;
        if v.len() != 16 {
            return Err(OsdpError::Parse("key must be 16 bytes".to_owned()));
        }
        let k: [u8; 16] = [v[0], v[1], v[2], v[3], v[4], v[5], v[6], v[7], v[8], v[9], v[10], v[11], v[12], v[13], v[14], v[15]];
        proof {
            assert(k@ =~= v@);
        }
        Ok(k)
    }

    /// Render a 16-byte key as 32 lower-case hex characters.
    pub fn key_to_str(key: &[u8; 16]) -> (r: String)
        ensures
            r@ =~= spec_hex_str(key@),
    {
        let mut s = String::new();
        let mut i: usize = 0;
        while i < 16
            invariant
                i <= 16,
                s@ =~= spec_hex_str(key@).take(2 * i as int),
            decreases 16 - i,
        {
            let b = key[i];
            push_hex_char(&mut s, b / 16);
            push_hex_char(&mut s, b % 16);
            i = i + 1;
            proof {
                assert(s@ =~= spec_hex_str(key@).take(2 * i as int));
            }
        }
        proof {
            assert(spec_hex_str(key@).take(32) =~= spec_hex_str(key@));
        }
        s
    }
}

/// The per-PD slice of a CP configuration.
#[derive(Clone, Debug)]
pub struct PdData {
    /// The PD's name.
    pub name: String,
    pub channel: String,
    pub address: i32,
    /// The PD's key store.
    pub key_store: KeyStore,
    pub flags: OsdpFlag,
}

impl PdData {
    /// Assemble the configuration of one PD on a CP's bus.
    pub fn new(name: String, channel: String, address: i32, key_store: KeyStore, flags: OsdpFlag) -> (r:
        PdData)
        ensures
            r.name@ == name@,
            r.channel@ == channel@,
            r.address == address,
            r.key_store.key@ == key_store.key@,
            r.key_store.store@ == key_store.store@,
            r.flags == flags,
    {
        PdData { name, channel, address, key_store, flags }
    }

    /// The channel description this PD is reached through.
    pub fn channel_desc(&self) -> (r: &String)
        ensures
            r@ == self.channel@,
    {
        &self.channel
    }

    /// The PD's configured address.
    pub fn address(&self) -> (r: i32)
        ensures
            r == self.address,
    {
        self.address
    }
}

/// Configuration of a CP device: its name and the PDs it manages.
#[derive(Clone, Debug)]
pub struct CpConfig {
    /// Directory runtime state (sockets, pid files) lives in.
    pub runtime_dir: String,
    /// The CP's name.
    pub name: String,
    pub pd_data: Vec<PdData>,
    /// Configured log verbosity.
    pub log_level: LogLevel,
}

impl CpConfig {
    /// Assemble a CP configuration; a multidrop bus carries at most 126
    /// PDs, and a larger configuration is rejected.
    pub fn new(name: String, runtime_dir: String, pd_data: Vec<PdData>, log_level: LogLevel) -> (r:
        Result<CpConfig, OsdpError>)
        ensures
            r is Ok <==> pd_data@.len() <= 126,
            r matches Ok(c) ==> c.name@ == name@ && c.runtime_dir@ == runtime_dir@ && c.pd_data@
                == pd_data@ && c.log_level == log_level,
    {
        if pd_data.len() > 126 {
            return Err(OsdpError::Setup);
        }
        Ok(CpConfig { runtime_dir, name, pd_data, log_level })
    }

    /// The configured PDs.
    pub fn pd_data(&self) -> (r: &Vec<PdData>)
        ensures
            r@ == self.pd_data@,
    {
        &self.pd_data
    }

    /// Build the `PdInfoBuilder` list for this configuration: one
    /// builder per configured PD, in order, carrying the CP's name, the
    /// PD's address and flags, the fixed bus rate of 115200 and the
    /// stored base key. Succeeds exactly when every configured address
    /// lies in 0..=126.
    pub fn pd_info(&self) -> (r: Result<Vec<PdInfoBuilder>, OsdpError>)
        ensures
            r is Ok <==> (forall|j: int|
                0 <= j < self.pd_data@.len() ==> spec_valid_address(
                    #[trigger] self.pd_data@[j].address,
                )),
            r matches Ok(v) ==> v@.len() == self.pd_data@.len() && (forall|j: int|
                0 <= j < v@.len() ==> {
                    &&& (#[trigger] v@[j]).name matches Some(n) && n@ == self.name@
                    &&& v@[j].address == self.pd_data@[j].address
                    &&& v@[j].baud_rate == 115200
                    &&& v@[j].flags == self.pd_data@[j].flags
                    &&& v@[j].scbk == Some(self.pd_data@[j].key_store.key)
                }),
    {
        let mut out: Vec<PdInfoBuilder> = Vec::new();
        let mut i: usize = 0;
        while i < self.pd_data.len()
            invariant
                i <= self.pd_data@.len(),
                out@.len() == i,
                forall|j: int|
                    0 <= j < i ==> spec_valid_address(#[trigger] self.pd_data@[j].address),
                forall|j: int|
                    0 <= j < i ==> {
                        &&& (#[trigger] out@[j]).name matches Some(n) && n@ == self.name@
                        &&& out@[j].address == self.pd_data@[j].address
                        &&& out@[j].baud_rate == 115200
                        &&& out@[j].flags == self.pd_data@[j].flags
                        &&& out@[j].scbk == Some(self.pd_data@[j].key_store.key)
                    },
            decreases self.pd_data@.len() - i,
        {
            let d = &self.pd_data[i];
            if d.address < 0 || d.address > 126 {
                return Err(OsdpError::PdInfoBuilder("invalid address"));
            }
            let b = PdInfoBuilder {
                name: Some(self.name.clone()),
                address: d.address,
                baud_rate: 115200,
                flags: d.flags,
                id: Default::default(),
                cap: Vec::new(),
                scbk: Some(d.key_store.key),
            };
            out.push(b);
            i = i + 1;
        }
        Ok(out)
    }
}

/// Configuration of a PD device.
#[derive(Clone, Debug)]
pub struct PdConfig {
    /// Directory runtime state (sockets, pid files) lives in.
    pub runtime_dir: String,
    /// The PD's name.
    pub name: String,
    pub channel: String,
    pub address: i32,
    /// The PD's key store.
    pub key_store: KeyStore,
    pub pd_id: PdId,
    pub pd_cap: Vec<PdCapability>,
    pub flags: OsdpFlag,
    /// Configured log verbosity.
    pub log_level: LogLevel,
}

impl PdConfig {
    /// Assemble a PD configuration from parsed values.
    pub fn new(
        name: String,
        runtime_dir: String,
        channel: String,
        address: i32,
        key_store: KeyStore,
        pd_id: PdId,
        pd_cap: Vec<PdCapability>,
        flags: OsdpFlag,
        log_level: LogLevel,
    ) -> (r: PdConfig)
        ensures
            r.name@ == name@,
            r.runtime_dir@ == runtime_dir@,
            r.channel@ == channel@,
            r.address == address,
            r.key_store.key@ == key_store.key@,
            r.key_store.store@ == key_store.store@,
            r.pd_id == pd_id,
            r.pd_cap@ == pd_cap@,
            r.flags == flags,
            r.log_level == log_level,
    {
        PdConfig {
            runtime_dir,
            name,
            channel,
            address,
            key_store,
            pd_id,
            pd_cap,
            flags,
            log_level,
        }
    }

    /// The channel description this PD listens on.
    pub fn channel_desc(&self) -> (r: &String)
        ensures
            r@ == self.channel@,
    {
        &self.channel
    }

    /// Build the `PdInfoBuilder` for this configuration, carrying the
    /// PD's name, address, flags, identity record, capability list, the
    /// fixed bus rate of 115200 and the stored base key. Succeeds
    /// exactly when the configured address lies in 0..=126.
    pub fn pd_info(&self) -> (r: Result<PdInfoBuilder, OsdpError>)
        ensures
            r is Ok <==> spec_valid_address(self.address),
            r matches Ok(b) ==> {
                &&& b.name matches Some(n) && n@ == self.name@
                &&& b.address == self.address
                &&& b.baud_rate == 115200
                &&& b.flags == self.flags
                &&& b.id == self.pd_id
                &&& b.cap@ == self.pd_cap@
                &&& b.scbk == Some(self.key_store.key)
            },
    {
        if self.address < 0 || self.address > 126 {
            return Err(OsdpError::PdInfoBuilder("invalid address"));
        }
        let mut caps: Vec<PdCapability> = Vec::new();
        let mut i: usize = 0;
        while i < self.pd_cap.len()
            invariant
                i <= self.pd_cap@.len(),
                caps@ =~= self.pd_cap@.take(i as int),
            decreases self.pd_cap@.len() - i,
        {
            caps.push(self.pd_cap[i]);
            i = i + 1;
            proof {
                assert(caps@ =~= self.pd_cap@.take(i as int));
            }
        }
        proof {
            assert(self.pd_cap@.take(self.pd_cap@.len() as int) =~= self.pd_cap@);
        }
        Ok(PdInfoBuilder {
            name: Some(self.name.clone()),
            address: self.address,
            baud_rate: 115200,
            flags: self.flags,
            id: self.pd_id,
            cap: caps,
            scbk: Some(self.key_store.key),
        })
    }
}

/// A parsed device configuration: either side of the protocol.
#[derive(Clone, Debug)]
pub enum DeviceConfig {
    /// Configuration of a CP.
    CpConfig(CpConfig),
    /// Configuration of a PD.
    PdConfig(PdConfig),
}

impl DeviceConfig {
    /// The configured device name.
    pub fn name(&self) -> (r: &str)
        ensures
            self matches DeviceConfig::CpConfig(c) ==> r@ == c.name@,
            self matches DeviceConfig::PdConfig(c) ==> r@ == c.name@,
    {
        match self {
            DeviceConfig::CpConfig(c) => c.name.as_str(),
            DeviceConfig::PdConfig(c) => c.name.as_str(),
        }
    }

    /// The path of this device's pid file, under its runtime directory.
    pub fn pid_file(&self) -> (r: String)
        ensures
            self matches DeviceConfig::CpConfig(c) ==> r@ =~= c.runtime_dir@ + "/dev-"@ + c.name@
                + ".pid"@,
            self matches DeviceConfig::PdConfig(c) ==> r@ =~= c.runtime_dir@ + "/dev-"@ + c.name@
                + ".pid"@,
    {
        let (dir, name) = match self {
            DeviceConfig::CpConfig(c) => (&c.runtime_dir, &c.name),
            DeviceConfig::PdConfig(c) => (&c.runtime_dir, &c.name),
        };
        let mut s = dir.clone();
        s.append("/dev-");
        s.append(name.as_str());
        s.append(".pid");
        s
    }
}

/// One nibble through the rendering and back: the hex character is an
/// ASCII hex digit and decodes to the nibble again.
proof fn lemma_hex_nibble(n: u8)
    requires
        n < 16,
    ensures
        spec_is_hex_digit(spec_hex_code(n)),
        spec_hex_val(spec_hex_code(n)) == n,
        spec_hex_char(n) == spec_hex_code(n) as char,
        spec_hex_char(n) as u8 == spec_hex_code(n),
        '\0' <= spec_hex_char(n) <= '\u{7f}',
{
}

/// Rendering bytes as hex and decoding the hex text restores the bytes:
/// `decode_hex` applied to (the UTF-8 bytes of) a string whose
/// characters are `spec_hex_str(key)` — what `key_to_str` produces —
/// yields `key` again.
pub proof fn lemma_key_to_str_decodes(s: &str, key: Seq<u8>)
    requires
        s@ == spec_hex_str(key),
    ensures
        spec_valid_hex(s.spec_bytes()),
        s.spec_bytes().len() == 2 * key.len(),
        spec_hex_decode(s.spec_bytes()) =~= key,
{
    assert forall|i: int| 0 <= i < s@.len() implies '\0' <= #[trigger] s@[i] <= '\u{7f}' by {
        if i % 2 == 0 {
            lemma_hex_nibble(key[i / 2] / 16);
        } else {
            lemma_hex_nibble(key[i / 2] % 16);
        }
    }
    assert(vstd::utf8::is_ascii_chars(s@));
    vstd::utf8::is_ascii_chars_encode_utf8(s@);
    let b = s.spec_bytes();
    assert(b.len() == 2 * key.len());
    assert forall|j: int| 0 <= j < b.len() implies spec_is_hex_digit(#[trigger] b[j]) by {
        assert(b[j] == s@[j] as u8);
        if j % 2 == 0 {
            lemma_hex_nibble(key[j / 2] / 16);
        } else {
            lemma_hex_nibble(key[j / 2] % 16);
        }
    }
    assert forall|k: int| 0 <= k < key.len() implies spec_hex_decode(b)[k] == key[k] by {
        assert(b[2 * k] == s@[2 * k] as u8);
        assert(b[2 * k + 1] == s@[2 * k + 1] as u8);
        lemma_hex_nibble(key[k] / 16);
        lemma_hex_nibble(key[k] % 16);
        assert(spec_hex_val(b[2 * k]) == key[k] / 16);
        assert(spec_hex_val(b[2 * k + 1]) == key[k] % 16);
        assert((key[k] / 16) * 16 + key[k] % 16 == key[k]) by (nonlinear_arith);
    }
}

/// True for the ASCII whitespace a pid file may carry around its number.
pub open spec fn spec_is_ws(b: u8) -> bool {
    b == 0x20 || b == 0x09 || b == 0x0a || b == 0x0d
}

/// The first index at or after `i` holding a non-whitespace byte.
pub open spec fn spec_trim_lo(bytes: Seq<u8>, i: int) -> int
    decreases bytes.len() - i,
{
    if i < 0 || i >= bytes.len() || !spec_is_ws(bytes[i]) {
        i
    } else {
        spec_trim_lo(bytes, i + 1)
    }
}

/// The end of the non-whitespace content at or before `i`.
pub open spec fn spec_trim_hi(bytes: Seq<u8>, i: int) -> int
    decreases i,
{
    if i <= 0 || i > bytes.len() || !spec_is_ws(bytes[i - 1]) {
        i
    } else {
        spec_trim_hi(bytes, i - 1)
    }
}

/// The decimal value of the digits `bytes[lo..hi]`.
pub open spec fn spec_dec_val(bytes: Seq<u8>, lo: int, hi: int) -> int
    decreases hi - lo,
{
    if hi <= lo {
        0
    } else {
        spec_dec_val(bytes, lo, hi - 1) * 10 + (bytes[hi - 1] - 0x30)
    }
}

/// Appending digits never shrinks the value.
proof fn lemma_dec_val_monotone(bytes: Seq<u8>, lo: int, k: int, hi: int)
    requires
        lo <= k <= hi <= bytes.len(),
        forall|j: int| lo <= j < hi ==> 0x30 <= #[trigger] bytes[j] <= 0x39,
    ensures
        spec_dec_val(bytes, lo, hi) >= spec_dec_val(bytes, lo, k),
        spec_dec_val(bytes, lo, k) >= 0,
    decreases hi - k,
{
    if k == hi {
        lemma_dec_val_nonneg(bytes, lo, k);
    } else {
        lemma_dec_val_monotone(bytes, lo, k, hi - 1);
        lemma_dec_val_nonneg(bytes, lo, hi - 1);
    }
}

/// Trimming from the right never moves the bound up.
proof fn lemma_trim_hi_le(bytes: Seq<u8>, i: int)
    ensures
        spec_trim_hi(bytes, i) <= i,
    decreases i,
{
    if !(i <= 0 || i > bytes.len() || !spec_is_ws(bytes[i - 1])) {
        lemma_trim_hi_le(bytes, i - 1);
    }
}

proof fn lemma_dec_val_nonneg(bytes: Seq<u8>, lo: int, hi: int)
    requires
        forall|j: int| lo <= j < hi ==> 0x30 <= #[trigger] bytes[j] <= 0x39,
    ensures
        spec_dec_val(bytes, lo, hi) >= 0,
    decreases hi - lo,
{
    if hi > lo {
        lemma_dec_val_nonneg(bytes, lo, hi - 1);
    }
}

/// Parse the number recorded in a pid file: optional surrounding ASCII
/// whitespace around decimal digits. Succeeds exactly when the trimmed
/// content is nonempty, holds digits only, and its value fits an `i32`.
pub fn parse_pid(s: &str) -> (r: Result<i32, OsdpError>)
    ensures
        r is Ok <==> ({
            let b = s.spec_bytes();
            let lo = spec_trim_lo(b, 0);
            let hi = spec_trim_hi(b, b.len() as int);
            &&& lo < hi
            &&& forall|j: int| lo <= j < hi ==> 0x30 <= #[trigger] b[j] <= 0x39
            &&& spec_dec_val(b, lo, hi) <= 0x7fffffff
        }),
        r matches Ok(v) ==> v == spec_dec_val(
            s.spec_bytes(),
            spec_trim_lo(s.spec_bytes(), 0),
            spec_trim_hi(s.spec_bytes(), s.spec_bytes().len() as int),
        ),
{
    let b = s.as_bytes();
    let ghost bs = s.spec_bytes();
    let mut lo: usize = 0;
    while lo < b.len() && (b[lo] == 0x20 || b[lo] == 0x09 || b[lo] == 0x0a || b[lo] == 0x0d)
        invariant
            lo <= bs.len(),
            b@ == bs,
            spec_trim_lo(bs, 0) == spec_trim_lo(bs, lo as int),
        decreases bs.len() - lo,
    {
        lo = lo + 1;
    }
    proof {
        assert(spec_trim_lo(bs, lo as int) == lo);
    }
    let mut hi: usize = b.len();
    while hi > lo && (b[hi - 1] == 0x20 || b[hi - 1] == 0x09 || b[hi - 1] == 0x0a || b[hi - 1]
        == 0x0d)
        invariant
            lo <= hi <= bs.len(),
            b@ == bs,
            spec_trim_lo(bs, 0) == lo,
            spec_trim_hi(bs, bs.len() as int) == spec_trim_hi(bs, hi as int),
        decreases hi,
    {
        hi = hi - 1;
    }
    if lo >= hi {
        proof {
            lemma_trim_hi_le(bs, hi as int);
        }
        return Err(OsdpError::Parse("empty pid".to_owned()));
    }
    proof {
        assert(spec_trim_hi(bs, hi as int) == hi);
    }
    let mut acc: u64 = 0;
    let mut i: usize = lo;
    while i < hi
        invariant
            lo <= i <= hi <= bs.len(),
            b@ == bs,
            bs == s.spec_bytes(),
            spec_trim_lo(bs, 0) == lo as int,
            spec_trim_hi(bs, bs.len() as int) == hi as int,
            forall|j: int| lo <= j < i ==> 0x30 <= #[trigger] bs[j] <= 0x39,
            acc == spec_dec_val(bs, lo as int, i as int),
            acc <= 0x7fffffff,
        decreases hi - i,
    {
        let c = b[i];
        if c < 0x30 || c > 0x39 {
            proof {
                assert(!(forall|j: int|
                    spec_trim_lo(bs, 0) <= j < spec_trim_hi(bs, bs.len() as int) ==> 0x30
                        <= #[trigger] bs[j] <= 0x39)) by {
                    assert(lo <= i < hi && !(0x30 <= bs[i as int] <= 0x39));
                }
            }
            return Err(OsdpError::Parse("pid is not a number".to_owned()));
        }
        acc = acc * 10 + ((c - 0x30) as u64);
        i = i + 1;
        if acc > 0x7fffffff {
            proof {
                if forall|j: int| lo <= j < hi ==> 0x30 <= #[trigger] bs[j] <= 0x39 {
                    lemma_dec_val_monotone(bs, lo as int, i as int, hi as int);
                }
            }
            return Err(OsdpError::Parse("pid out of range".to_owned()));
        }
    }
    Ok(acc as i32)
}

/// One step of the channel-id hash: rotate left by five and fold the next
/// byte in.
pub open spec fn spec_hash_step(h: u64, b: u8) -> u64 {
    (((h << 5) | (h >> 59)) ^ (b as u64))
}

/// The channel-id hash over the first `n` bytes.
pub open spec fn spec_hash_acc(bytes: Seq<u8>, n: int) -> u64
    decreases n,
{
    if n <= 0 {
        0xcbf29ce484222325u64
    } else {
        spec_hash_step(spec_hash_acc(bytes, n - 1), bytes[n - 1])
    }
}

/// The channel id a description string maps to.
pub open spec fn spec_channel_id(bytes: Seq<u8>) -> i32 {
    let h = spec_hash_acc(bytes, bytes.len() as int);
    (((h >> 32) ^ (h & 0xffffffff)) as i32)
}

/// Map a channel description to a stable integer channel id.
pub fn str_to_channel_id(key: &str) -> (r: i32)
    ensures
        r == spec_channel_id(key.spec_bytes()),
{
    let b = key.as_bytes();
    let mut h: u64 = 0xcbf29ce484222325;
    let mut i: usize = 0;
    while i < b.len()
        invariant
            i <= b@.len(),
            b@ == key.spec_bytes(),
            h == spec_hash_acc(b@, i as int),
        decreases b@.len() - i,
    {
        h = ((h << 5) | (h >> 59)) ^ (b[i] as u64);
        i = i + 1;
    }
    let folded: u64 = (h >> 32) ^ (h & 0xffffffff);
    #[verifier::truncate] (folded as i32)
}

} // verus!
