//! Static description of a PD: its bus address, baud rate, flags, identity
//! record, capability list and secure-channel base key. A `PdInfo` is
//! created at setup time through `PdInfoBuilder` and is immutable
//! thereafter; the builder rejects invalid addresses and baud rates
//! synchronously.

use vstd::prelude::*;
use vstd::string::StringExecFns;
use vstd::string::StringSliceAdditionalSpecFns;

use crate::OsdpError;
use crate::OsdpFlag;

verus! {

/// Static identity record a PD reports to the CP on an identity request.
#[derive(Clone, Copy, Debug, PartialEq, Eq)]
pub struct PdId {
    /// Version of this product.
    pub version: i32,
    /// Model of this product.
    pub model: i32,
    /// 3-byte IEEE assigned OUI.
    pub vendor_code: (u8, u8, u8),
    /// 4-byte serial number.
    pub serial_number: [u8; 4],
    /// 3-byte version (major, minor, build).
    pub firmware_version: (u8, u8, u8),
}

impl PdId {
    /// A identity record derived from a single number, for simple setups.
    pub fn from_number(num: u8) -> (r: PdId)
        ensures
            r.version == 0,
            r.model == 0,
            r.vendor_code == (0u8, 0u8, 0u8),
            r.serial_number@ =~= seq![num, 0u8, 0u8, 0u8],
            r.firmware_version == (0u8, 0u8, 0u8),
    {
        PdId {
            version: 0,
            model: 0,
            vendor_code: (0, 0, 0),
            serial_number: [num, 0, 0, 0],
            firmware_version: (0, 0, 0),
        }
    }
}

impl Default for PdId {
    fn default() -> (r: PdId)
        ensures
            r == (PdId {
                version: 0i32,
                model: 0i32,
                vendor_code: (0u8, 0u8, 0u8),
                serial_number: [0u8, 0u8, 0u8, 0u8],
                firmware_version: (0u8, 0u8, 0u8),
            }),
    {
        PdId {
            version: 0,
            model: 0,
            vendor_code: (0, 0, 0),
            serial_number: [0, 0, 0, 0],
            firmware_version: (0, 0, 0),
        }
    }
}

/// One entry of a PD capability report: how well a function is supported
/// and how many units of it the PD offers.
#[derive(Clone, Copy, Debug, PartialEq, Eq, Structural)]
pub struct PdCapEntity {
    /// Compliance level for the capability.
    pub compliance: u8,
    /// Number of units of this capability the PD carries.
    pub num_items: u8,
}

impl PdCapEntity {
    /// Create a capability entry.
    pub fn new(compliance: u8, num_items: u8) -> (r: PdCapEntity)
        ensures
            r == (PdCapEntity { compliance, num_items }),
    {
        PdCapEntity { compliance, num_items }
    }
}

/// A PD capability: a function code together with its entity record.
#[derive(Clone, Copy, Debug, PartialEq, Eq, Structural)]
pub enum PdCapability {
    /// Monitoring of contact (dry) inputs.
    ContactStatusMonitoring(PdCapEntity),
    /// Control of output circuits.
    OutputControl(PdCapEntity),
    /// Card data format support.
    CardDataFormat(PdCapEntity),
    /// LED control.
    LedControl(PdCapEntity),
    /// Audible output (buzzer) control.
    AudibleOutput(PdCapEntity),
    /// Text output support.
    TextOutput(PdCapEntity),
    /// Time keeping support.
    TimeKeeping(PdCapEntity),
    /// Check character support.
    CheckCharacterSupport(PdCapEntity),
    /// Secure-channel communication security support.
    CommunicationSecurity(PdCapEntity),
    /// Receive buffer size.
    ReceiveBufferSize(PdCapEntity),
    /// Largest combined message size.
    LargestCombinedMessage(PdCapEntity),
    /// Smart card reader support.
    SmartCardSupport(PdCapEntity),
    /// Number of attached readers.
    Readers(PdCapEntity),
    /// Biometric reader support.
    Biometrics(PdCapEntity),
}

impl PdCapability {
    /// The wire function code for this capability.
    pub fn function_code(&self) -> (r: u8)
        ensures
            r == spec_cap_code(*self),
    {
        match self {
            PdCapability::ContactStatusMonitoring(_) => 1,
            PdCapability::OutputControl(_) => 2,
            PdCapability::CardDataFormat(_) => 3,
            PdCapability::LedControl(_) => 4,
            PdCapability::AudibleOutput(_) => 5,
            PdCapability::TextOutput(_) => 6,
            PdCapability::TimeKeeping(_) => 7,
            PdCapability::CheckCharacterSupport(_) => 8,
            PdCapability::CommunicationSecurity(_) => 9,
            PdCapability::ReceiveBufferSize(_) => 10,
            PdCapability::LargestCombinedMessage(_) => 11,
            PdCapability::SmartCardSupport(_) => 12,
            PdCapability::Readers(_) => 13,
            PdCapability::Biometrics(_) => 14,
        }
    }

    /// The entity record of this capability.
    pub fn entity(&self) -> (r: PdCapEntity)
        ensures
            r == spec_cap_entity(*self),
    {
        match self {
            PdCapability::ContactStatusMonitoring(e) => *e,
            PdCapability::OutputControl(e) => *e,
            PdCapability::CardDataFormat(e) => *e,
            PdCapability::LedControl(e) => *e,
            PdCapability::AudibleOutput(e) => *e,
            PdCapability::TextOutput(e) => *e,
            PdCapability::TimeKeeping(e) => *e,
            PdCapability::CheckCharacterSupport(e) => *e,
            PdCapability::CommunicationSecurity(e) => *e,
            PdCapability::ReceiveBufferSize(e) => *e,
            PdCapability::LargestCombinedMessage(e) => *e,
            PdCapability::SmartCardSupport(e) => *e,
            PdCapability::Readers(e) => *e,
            PdCapability::Biometrics(e) => *e,
        }
    }

    /// Rebuild a capability from a function code and entity record.
    pub fn from_code(code: u8, e: PdCapEntity) -> (r: Option<PdCapability>)
        ensures
            r == spec_cap_from_code(code, e),
            1 <= code <= 14 ==> (r matches Some(c) && spec_cap_code(c) == code && spec_cap_entity(
                c,
            ) == e),
            !(1 <= code <= 14) ==> r is None,
    {
        match code {
            1 => Some(PdCapability::ContactStatusMonitoring(e)),
            2 => Some(PdCapability::OutputControl(e)),
            3 => Some(PdCapability::CardDataFormat(e)),
            4 => Some(PdCapability::LedControl(e)),
            5 => Some(PdCapability::AudibleOutput(e)),
            6 => Some(PdCapability::TextOutput(e)),
            7 => Some(PdCapability::TimeKeeping(e)),
            8 => Some(PdCapability::CheckCharacterSupport(e)),
            9 => Some(PdCapability::CommunicationSecurity(e)),
            10 => Some(PdCapability::ReceiveBufferSize(e)),
            11 => Some(PdCapability::LargestCombinedMessage(e)),
            12 => Some(PdCapability::SmartCardSupport(e)),
            13 => Some(PdCapability::Readers(e)),
            14 => Some(PdCapability::Biometrics(e)),
            _ => None,
        }
    }
}

/// The capability a function code and entity record denote, if the code
/// is assigned.
pub open spec fn spec_cap_from_code(code: u8, e: PdCapEntity) -> Option<PdCapability> {
    if code == 1 {
        Some(PdCapability::ContactStatusMonitoring(e))
    } else if code == 2 {
        Some(PdCapability::OutputControl(e))
    } else if code == 3 {
        Some(PdCapability::CardDataFormat(e))
    } else if code == 4 {
        Some(PdCapability::LedControl(e))
    } else if code == 5 {
        Some(PdCapability::AudibleOutput(e))
    } else if code == 6 {
        Some(PdCapability::TextOutput(e))
    } else if code == 7 {
        Some(PdCapability::TimeKeeping(e))
    } else if code == 8 {
        Some(PdCapability::CheckCharacterSupport(e))
    } else if code == 9 {
        Some(PdCapability::CommunicationSecurity(e))
    } else if code == 10 {
        Some(PdCapability::ReceiveBufferSize(e))
    } else if code == 11 {
        Some(PdCapability::LargestCombinedMessage(e))
    } else if code == 12 {
        Some(PdCapability::SmartCardSupport(e))
    } else if code == 13 {
        Some(PdCapability::Readers(e))
    } else if code == 14 {
        Some(PdCapability::Biometrics(e))
    } else {
        None
    }
}

/// The wire function code of a capability.
pub open spec fn spec_cap_code(c: PdCapability) -> u8 {
    match c {
        PdCapability::ContactStatusMonitoring(_) => 1,
        PdCapability::OutputControl(_) => 2,
        PdCapability::CardDataFormat(_) => 3,
        PdCapability::LedControl(_) => 4,
        PdCapability::AudibleOutput(_) => 5,
        PdCapability::TextOutput(_) => 6,
        PdCapability::TimeKeeping(_) => 7,
        PdCapability::CheckCharacterSupport(_) => 8,
        PdCapability::CommunicationSecurity(_) => 9,
        PdCapability::ReceiveBufferSize(_) => 10,
        PdCapability::LargestCombinedMessage(_) => 11,
        PdCapability::SmartCardSupport(_) => 12,
        PdCapability::Readers(_) => 13,
        PdCapability::Biometrics(_) => 14,
    }
}

/// The entity record of a capability.
pub open spec fn spec_cap_entity(c: PdCapability) -> PdCapEntity {
    match c {
        PdCapability::ContactStatusMonitoring(e) => e,
        PdCapability::OutputControl(e) => e,
        PdCapability::CardDataFormat(e) => e,
        PdCapability::LedControl(e) => e,
        PdCapability::AudibleOutput(e) => e,
        PdCapability::TextOutput(e) => e,
        PdCapability::TimeKeeping(e) => e,
        PdCapability::CheckCharacterSupport(e) => e,
        PdCapability::CommunicationSecurity(e) => e,
        PdCapability::ReceiveBufferSize(e) => e,
        PdCapability::LargestCombinedMessage(e) => e,
        PdCapability::SmartCardSupport(e) => e,
        PdCapability::Readers(e) => e,
        PdCapability::Biometrics(e) => e,
    }
}

/// The mathematical value of an identity record: the serial number as a
/// sequence.
pub struct PdIdView {
    /// Version of the product.
    pub version: i32,
    /// Model of the product.
    pub model: i32,
    /// 3-byte IEEE assigned OUI.
    pub vendor_code: (u8, u8, u8),
    /// 4-byte serial number.
    pub serial_number: Seq<u8>,
    /// 3-byte version (major, minor, build).
    pub firmware_version: (u8, u8, u8),
}

impl View for PdId {
    type V = PdIdView;

    open spec fn view(&self) -> PdIdView {
        PdIdView {
            version: self.version,
            model: self.model,
            vendor_code: self.vendor_code,
            serial_number: self.serial_number@,
            firmware_version: self.firmware_version,
        }
    }
}

/// The character of one decimal digit.
pub open spec fn spec_digit_char(d: u8) -> char {
    ((0x30 + d) as u8) as char
}

/// The decimal digits of a value, most significant first.
pub open spec fn spec_dec_chars(n: u32) -> Seq<char>
    decreases n,
{
    if n < 10 {
        seq![spec_digit_char(n as u8)]
    } else {
        spec_dec_chars(n / 10).push(spec_digit_char((n % 10) as u8))
    }
}

/// The default name of a PD whose configuration names none.
pub open spec fn spec_default_name(address: i32) -> Seq<char> {
    "pd-"@ + spec_dec_chars(
        if address >= 0 {
            address as u32
        } else {
            0u32
        },
    )
}

/// True for the baud rates the protocol supports.
pub open spec fn spec_valid_baud(b: i32) -> bool {
    b == 9600 || b == 19200 || b == 38400 || b == 57600 || b == 115200 || b == 230400
}

/// True for a legal (non-broadcast) PD address.
pub open spec fn spec_valid_address(a: i32) -> bool {
    0 <= a <= 126
}

/// OSDP PD information: the immutable per-PD configuration.
#[derive(Clone, Debug)]
pub struct PdInfo {
    pub name: String,
    pub address: i32,
    pub baud_rate: i32,
    pub flags: OsdpFlag,
    pub id: PdId,
    pub cap: Vec<PdCapability>,
    pub scbk: Option<[u8; 16]>,
}

impl PdInfo {
    /// The PD's name, used in diagnostics.
    pub fn name(&self) -> (r: String)
        ensures
            r@ == self.name@,
    {
        self.name.clone()
    }

    /// The PD's 7-bit address. The special address 0x7F is reserved for
    /// broadcast, so configured addresses lie in 0..=126.
    pub fn address(&self) -> (r: i32)
        ensures
            r == self.address,
    {
        self.address
    }

    /// The PD's baud rate, one of 9600/19200/38400/57600/115200/230400.
    pub fn baud_rate(&self) -> (r: i32)
        ensures
            r == self.baud_rate,
    {
        self.baud_rate
    }

    /// The PD's setup flags.
    pub fn flag(&self) -> (r: OsdpFlag)
        ensures
            r == self.flags,
    {
        self.flags
    }

    /// The PD's static identity record.
    pub fn id(&self) -> (r: PdId)
        ensures
            r == self.id,
    {
        self.id
    }

    /// The PD's capability list, in the order it was configured.
    pub fn capabilities(&self) -> (r: Vec<PdCapability>)
        ensures
            r@ =~= self.cap@,
    {
        let mut out: Vec<PdCapability> = Vec::new();
        let mut i: usize = 0;
        while i < self.cap.len()
            invariant
                i <= self.cap@.len(),
                out@ =~= self.cap@.take(i as int),
            decreases self.cap@.len() - i,
        {
            out.push(self.cap[i]);
            i = i + 1;
            proof {
                assert(out@ =~= self.cap@.take(i as int));
            }
        }
        proof {
            assert(self.cap@.take(self.cap@.len() as int) =~= self.cap@);
        }
        out
    }

    /// The PD's secure-channel base key, or `None` for install mode.
    pub fn secure_channel_key(&self) -> (r: Option<[u8; 16]>)
        ensures
            r == self.scbk,
    {
        self.scbk
    }
}

/// Builder for [`PdInfo`]. Address and baud rate are validated as they are
/// set, so a finished `PdInfo` never carries an out-of-range address.
#[derive(Clone, Debug)]
pub struct PdInfoBuilder {
    pub name: Option<String>,
    pub address: i32,
    pub baud_rate: i32,
    pub flags: OsdpFlag,
    pub id: PdId,
    pub cap: Vec<PdCapability>,
    pub scbk: Option<[u8; 16]>,
}

impl PdInfoBuilder {
    /// Create a builder with an empty configuration.
    pub fn new() -> (r: PdInfoBuilder)
        ensures
            r.name is None,
            r.address == 0,
            r.baud_rate == 0,
            r.flags == (OsdpFlag {
                enforce_secure: false,
                install_mode: false,
                ignore_unsolicited: false,
            }),
            r.cap@.len() == 0,
            r.scbk is None,
    {
        PdInfoBuilder {
            name: None,
            address: 0,
            baud_rate: 0,
            flags: OsdpFlag::empty(),
            id: Default::default(),
            cap: Vec::new(),
            scbk: None,
        }
    }

    /// Set the PD name (defaults to `pd-<address>`). Rejected if it holds a
    /// nul byte.
    pub fn name(self, name: &str) -> (r: Result<PdInfoBuilder, OsdpError>)
        ensures
            r matches Ok(b) ==> (b.name matches Some(n) && n@ == name@) && b == (PdInfoBuilder {
                name: b.name,
                ..self
            }),
            r is Ok <==> (forall|j: int|
                0 <= j < name.spec_bytes().len() ==> name.spec_bytes()[j] != 0),
    {
        let bytes = name.as_bytes();
        let mut i: usize = 0;
        while i < bytes.len()
            invariant
                i <= bytes@.len(),
                bytes@ == name.spec_bytes(),
                forall|j: int| 0 <= j < i ==> bytes@[j] != 0,
            decreases bytes@.len() - i,
        {
            if bytes[i] == 0 {
                return Err(OsdpError::PdInfoBuilder("invalid name"));
            }
            i = i + 1;
        }
        Ok(PdInfoBuilder { name: Some(name.to_owned()), ..self })
    }

    /// Set the 7-bit PD address; every address in 0..=126 is accepted, and
    /// 127 (the broadcast address) or anything out of range is rejected.
    pub fn address(self, address: i32) -> (r: Result<PdInfoBuilder, OsdpError>)
        ensures
            r is Ok <==> spec_valid_address(address),
            r matches Ok(b) ==> b == (PdInfoBuilder { address, ..self }),
    {
        if address < 0 || address > 126 {
            return Err(OsdpError::PdInfoBuilder("invalid address"));
        }
        Ok(PdInfoBuilder { address, ..self })
    }

    /// Set the baud rate; exactly 9600, 19200, 38400, 57600, 115200 and
    /// 230400 are accepted.
    pub fn baud_rate(self, baud_rate: i32) -> (r: Result<PdInfoBuilder, OsdpError>)
        ensures
            r is Ok <==> spec_valid_baud(baud_rate),
            r matches Ok(b) ==> b == (PdInfoBuilder { baud_rate, ..self }),
    {
        if baud_rate != 9600 && baud_rate != 19200 && baud_rate != 38400 && baud_rate != 57600
            && baud_rate != 115200 && baud_rate != 230400 {
            return Err(OsdpError::PdInfoBuilder("invalid baud rate"));
        }
        Ok(PdInfoBuilder { baud_rate, ..self })
    }

    /// Add the given flags to the configuration.
    pub fn flag(self, flag: OsdpFlag) -> (r: PdInfoBuilder)
        ensures
            r == (PdInfoBuilder { flags: self.flags.spec_union(flag), ..self }),
    {
        let mut flags = self.flags;
        flags.set(flag, true);
        PdInfoBuilder { flags, ..self }
    }

    /// Set the static identity record the PD reports. Ignored in CP mode.
    pub fn id(self, id: &PdId) -> (r: PdInfoBuilder)
        ensures
            r == (PdInfoBuilder { id: *id, ..self }),
    {
        PdInfoBuilder { id: *id, ..self }
    }

    /// Add one capability.
    pub fn capability(self, cap: PdCapability) -> (r: PdInfoBuilder)
        ensures
            r.cap@ =~= self.cap@.push(cap),
            r == (PdInfoBuilder { cap: r.cap, ..self }),
    {
        let mut caps = self.cap;
        caps.push(cap);
        PdInfoBuilder { cap: caps, ..self }
    }

    /// Add several capabilities at once, in order.
    pub fn capabilities(self, caps: &Vec<PdCapability>) -> (r: PdInfoBuilder)
        ensures
            r.cap@ =~= self.cap@ + caps@,
            r == (PdInfoBuilder { cap: r.cap, ..self }),
    {
        let mut acc = self.cap;
        let mut i: usize = 0;
        while i < caps.len()
            invariant
                i <= caps@.len(),
                acc@ =~= self.cap@ + caps@.take(i as int),
            decreases caps@.len() - i,
        {
            acc.push(caps[i]);
            i = i + 1;
            proof {
                assert(acc@ =~= self.cap@ + caps@.take(i as int));
            }
        }
        proof {
            assert(self.cap@ + caps@.take(caps@.len() as int) =~= self.cap@ + caps@);
        }
        PdInfoBuilder { cap: acc, ..self }
    }

    /// Set the secure-channel base key. When no key is set the PD comes up
    /// in install mode.
    pub fn secure_channel_key(self, key: [u8; 16]) -> (r: PdInfoBuilder)
        ensures
            r == (PdInfoBuilder { scbk: Some(key), ..self }),
    {
        PdInfoBuilder { scbk: Some(key), ..self }
    }

    /// Finalize the `PdInfo` from the current builder.
    pub fn build(self) -> (r: PdInfo)
        ensures
            r.address == self.address,
            r.baud_rate == self.baud_rate,
            r.flags == self.flags,
            r.id == self.id,
            r.cap@ =~= self.cap@,
            r.scbk == self.scbk,
            self.name matches Some(n) ==> r.name@ == n@,
            self.name is None ==> r.name@ == spec_default_name(self.address),
    {
        let name = match self.name {
            Some(n) => n,
            None => default_pd_name(self.address),
        };
        PdInfo {
            name,
            address: self.address,
            baud_rate: self.baud_rate,
            flags: self.flags,
            id: self.id,
            cap: self.cap,
            scbk: self.scbk,
        }
    }
}

/// The digits collected least-significant first, as the characters they
/// print to, most significant first.
spec fn spec_rev_chars(ds: Seq<u8>) -> Seq<char> {
    Seq::new(ds.len(), |i: int| spec_digit_char(ds[ds.len() - 1 - i]))
}

/// The default name of a PD without a configured one.
fn default_pd_name(address: i32) -> (r: String)
    ensures
        r@ == spec_default_name(address),
{
    let mut s = "pd-".to_owned();
    let mut digits: Vec<u8> = Vec::new();
    let ghost a0: u32 = if address >= 0 {
        address as u32
    } else {
        0u32
    };
    let mut a: u32 = if address >= 0 {
        address as u32
    } else {
        0
    };
    digits.push((a % 10) as u8);
    a = a / 10;
    proof {
        assert(spec_rev_chars(digits@) =~= seq![spec_digit_char((a0 % 10) as u8)]);
    }
    while a > 0
        invariant
            forall|j: int| 0 <= j < digits@.len() ==> digits@[j] < 10,
            spec_dec_chars(a0) =~= (if a > 0 {
                spec_dec_chars(a)
            } else {
                Seq::<char>::empty()
            }) + spec_rev_chars(digits@),
        decreases a,
    {
        let ghost ds_pre = digits@;
        let ghost a_pre = a;
        digits.push((a % 10) as u8);
        a = a / 10;
        proof {
            assert(spec_rev_chars(digits@) =~= seq![spec_digit_char((a_pre % 10) as u8)]
                + spec_rev_chars(ds_pre));
            if a > 0 {
                assert(spec_dec_chars(a_pre) == spec_dec_chars(a).push(
                    spec_digit_char((a_pre % 10) as u8),
                ));
                assert(spec_dec_chars(a) + spec_rev_chars(digits@) =~= spec_dec_chars(a_pre)
                    + spec_rev_chars(ds_pre));
            } else {
                assert(spec_dec_chars(a_pre) =~= seq![spec_digit_char((a_pre % 10) as u8)]);
                assert(Seq::<char>::empty() + spec_rev_chars(digits@) =~= spec_dec_chars(a_pre)
                    + spec_rev_chars(ds_pre));
            }
        }
    }
    proof {
        assert(spec_dec_chars(a0) =~= spec_rev_chars(digits@));
    }
    let ghost ds = digits@;
    let mut i: usize = digits.len();
    while i > 0
        invariant
            i <= ds.len(),
            digits@ == ds,
            forall|j: int| 0 <= j < ds.len() ==> ds[j] < 10,
            s@ =~= "pd-"@ + spec_rev_chars(ds).take(ds.len() - i),
        decreases i,
    {
        i = i - 1;
        assert(ds[i as int] < 10);
        push_digit(&mut s, digits[i]);
        proof {
            assert(spec_rev_chars(ds)[ds.len() - 1 - i] == spec_digit_char(ds[i as int]));
            assert(s@ =~= "pd-"@ + spec_rev_chars(ds).take(ds.len() - i));
        }
    }
    proof {
        assert(spec_rev_chars(ds).take(ds.len() as int) =~= spec_rev_chars(ds));
    }
    s
}

/// Append one decimal digit to a string.
fn push_digit(s: &mut String, d: u8)
    requires
        d < 10,
    ensures
        final(s)@ =~= old(s)@.push(spec_digit_char(d)),
{
    match d {
        0 => {
            proof {
                reveal_strlit("0");
            }
            s.append("0")
        },
        1 => {
            proof {
                reveal_strlit("1");
            }
            s.append("1")
        },
        2 => {
            proof {
                reveal_strlit("2");
            }
            s.append("2")
        },
        3 => {
            proof {
                reveal_strlit("3");
            }
            s.append("3")
        },
        4 => {
            proof {
                reveal_strlit("4");
            }
            s.append("4")
        },
        5 => {
            proof {
                reveal_strlit("5");
            }
            s.append("5")
        },
        6 => {
            proof {
                reveal_strlit("6");
            }
            s.append("6")
        },
        7 => {
            proof {
                reveal_strlit("7");
            }
            s.append("7")
        },
        8 => {
            proof {
                reveal_strlit("8");
            }
            s.append("8")
        },
        _ => {
            proof {
                reveal_strlit("9");
            }
            s.append("9")
        },
    }
}

} // verus!
