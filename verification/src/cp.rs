//! The CP-side state machine: one instance drives the poll/command/idle
//! cycle of every configured PD. Each refresh sends at most one frame
//! per due PD: an identity request while the PD is unknown, a capability
//! request next, secure-channel handshake messages while a session is
//! required but not yet Active, a queued application command, or a plain
//! poll. A missing reply increments a retry counter; exhausting the
//! retry budget marks the PD offline. A duplicate reply sequence number
//! means the PD missed our acknowledgement, so the identical frame is
//! resent rather than a new one issued.

use vstd::prelude::*;

use crate::OsdpError;
use crate::channel::Channel;
use crate::codec::PacketHeader;
use crate::codec::decode_packet;
use crate::codec::drain_from;
use crate::codec::encode_packet;
use crate::codec::extract_frame;
use crate::commands::OsdpCommand;
use crate::commands::push_bytes;
use crate::commands::wf_command;
use crate::events::OsdpEvent;
use crate::file::FileTransferSession;
use crate::file::FtStatus;
use crate::file::OsdpFileOps;
use crate::message::CAP_CAP;
use crate::message::FRAG_CAP;
use crate::message::Message;
use crate::message::decode_message;
use crate::message::encode_message;
use crate::message::lemma_encode_message_len;
use crate::pdinfo::PdCapability;
use crate::pdinfo::PdId;
use crate::pdinfo::PdInfo;
use crate::pdinfo::PdInfoBuilder;
use crate::pdinfo::spec_valid_address;
use crate::pdinfo::spec_valid_baud;
use crate::sc::ScStatus;
use crate::sc::SecureChannelSession;

verus! {

/// Refresh ticks the CP waits for a reply before counting a retry.
pub const REPLY_TIMEOUT_TICKS: u32 = 8;

/// Retries (identical resends) before a PD is marked offline.
pub const RETRY_MAX: u32 = 3;

/// Refresh ticks an offline PD rests before the CP re-contacts it.
pub const OFFLINE_BACKOFF_TICKS: u32 = 16;

/// Refresh ticks without any reply after which `is_online` is false,
/// whatever state the PD connection was in.
pub const CP_OFFLINE_BUDGET: u32 = 64;

/// The CP's protocol state for one PD.
#[derive(Clone, Copy, Debug, PartialEq, Eq, Structural)]
pub enum CpState {
    /// No contact; resting before the next contact attempt.
    Offline,
    /// Requesting the PD's identity.
    IdHandshake,
    /// Requesting the PD's capabilities.
    CapabilitiesQuery,
    /// Driving the secure-channel handshake.
    SecureHandshake,
    /// Steady state: polling and issuing queued commands.
    Polling,
    /// A command was sent and its reply is awaited.
    CommandInFlight,
    /// Terminal: an enforced-secure PD failed its handshake.
    Error,
}

/// The CP-side runtime state of one PD connection.
#[derive(Debug)]
pub struct CpPd {
    /// The PD's configuration.
    pub info: PdInfo,
    /// Index of the channel this PD is reached through.
    pub channel_idx: usize,
    /// Protocol state.
    pub state: CpState,
    /// Secure-channel session (initiator role).
    pub sc: SecureChannelSession,
    /// Sequence number of the frame in flight (1..=15).
    pub seq: u8,
    /// Whether a frame is in flight awaiting its reply.
    pub awaiting: bool,
    /// The wire frame last sent, for identical resends.
    pub last_frame: Vec<u8>,
    /// Ticks since the in-flight frame was sent or resent.
    pub timeout_ticks: u32,
    /// Resends of the in-flight frame so far.
    pub retries: u32,
    /// Ticks left before an offline PD is re-contacted.
    pub backoff_ticks: u32,
    /// Whether the PD answered within the current retry budget.
    pub online: bool,
    /// Identity learned from the PD.
    pub pd_id: Option<PdId>,
    /// Capabilities learned from the PD.
    pub caps: Vec<PdCapability>,
    /// Commands queued by the application, in submission order.
    pub cmd_queue: Vec<OsdpCommand>,
    /// The running file transfer (sender role).
    pub ft: FileTransferSession,
    /// A protocol-decided message to send next (handshake progress).
    pub next_msg: Option<Message>,
    /// Whether a valid reply arrived in the current refresh.
    pub got_reply: bool,
}

/// The projection of one PD connection that the offline-detection
/// argument runs over.
#[derive(Clone, Copy, Debug, PartialEq, Eq, Structural)]
pub struct TimeoutModel {
    /// A frame is in flight.
    pub awaiting: bool,
    /// Ticks since it was (re)sent.
    pub timeout: u32,
    /// Resends so far.
    pub retries: u32,
    /// Whether the PD counts as online.
    pub online: bool,
}

/// The sequence number of the next frame after one with `seq`: the
/// 4-bit counter cycles through 1..=15.
pub open spec fn spec_next_seq(seq: u8) -> u8 {
    if seq >= 15 {
        1u8
    } else {
        (seq + 1) as u8
    }
}

/// A PD connection that is due to be sent a fresh plain frame in the
/// given state: nothing in flight, no reply taken this refresh, and no
/// Active session to protect the frame.
pub open spec fn spec_due_plain(pd: CpPd, state: CpState) -> bool {
    !pd.awaiting && !pd.got_reply && pd.state == state && pd.sc.status != ScStatus::Active
}

/// The plain wire frame a connection's next message goes out as.
pub open spec fn spec_plain_frame(pd: CpPd, m: crate::message::MessageView) -> Seq<u8> {
    crate::codec::spec_encode_packet(
        PacketHeader {
            address: pd.info.address as u8,
            is_reply: false,
            seq: spec_next_seq(pd.seq),
            use_crc: true,
            sc_active: false,
        },
        crate::message::spec_encode_message(m),
    )
}

/// The timeout projection of a PD connection.
pub open spec fn spec_tm(pd: CpPd) -> TimeoutModel {
    TimeoutModel {
        awaiting: pd.awaiting,
        timeout: pd.timeout_ticks,
        retries: pd.retries,
        online: pd.online,
    }
}

/// Timeout bookkeeping in bounds.
pub open spec fn spec_wf_tm(m: TimeoutModel) -> bool {
    m.timeout < REPLY_TIMEOUT_TICKS && m.retries <= RETRY_MAX && (!m.awaiting ==> m.timeout == 0)
}

/// One refresh of a PD connection that received no reply: an idle
/// connection puts its next frame in flight; a waiting one counts the
/// tick, resends on timeout, and goes offline once the retry budget is
/// exhausted. No step of this function ever sets `online`.
pub open spec fn spec_tick_no_reply(m: TimeoutModel) -> TimeoutModel {
    if !m.awaiting {
        TimeoutModel { awaiting: true, timeout: 0, retries: m.retries, online: m.online }
    } else if m.timeout + 1 < REPLY_TIMEOUT_TICKS {
        TimeoutModel { timeout: (m.timeout + 1) as u32, ..m }
    } else if m.retries < RETRY_MAX {
        TimeoutModel { timeout: 0, retries: (m.retries + 1) as u32, ..m }
    } else {
        TimeoutModel { awaiting: false, timeout: 0, retries: 0, online: false }
    }
}

/// `n` reply-less refreshes.
pub open spec fn spec_tick_n(m: TimeoutModel, n: nat) -> TimeoutModel
    decreases n,
{
    if n == 0 {
        m
    } else {
        spec_tick_no_reply(spec_tick_n(m, (n - 1) as nat))
    }
}

/// The decreasing measure of the offline argument: zero exactly when the
/// connection is offline.
pub open spec fn spec_tm_potential(m: TimeoutModel) -> int {
    if !m.online {
        0
    } else {
        (RETRY_MAX + 2 - m.retries) * (REPLY_TIMEOUT_TICKS + 2) - m.timeout - (if m.awaiting {
            1int
        } else {
            0int
        })
    }
}

proof fn lemma_tick_step(m: TimeoutModel)
    requires
        spec_wf_tm(m),
    ensures
        spec_wf_tm(spec_tick_no_reply(m)),
        m.online ==> spec_tm_potential(spec_tick_no_reply(m)) < spec_tm_potential(m),
        m.online ==> spec_tm_potential(m) <= (RETRY_MAX + 2) * (REPLY_TIMEOUT_TICKS + 2),
        !m.online ==> !spec_tick_no_reply(m).online,
        spec_tm_potential(m) <= 0 ==> !m.online,
{
}

/// Offline detection: a PD connection whose channel never produces a
/// reply reports offline once the retry budget is spent — after at most
/// `CP_OFFLINE_BUDGET` reply-less refreshes, `online` is false, and it
/// stays false until a valid reply arrives.
pub proof fn lemma_offline_after_budget(m: TimeoutModel, n: nat)
    requires
        spec_wf_tm(m),
        n >= CP_OFFLINE_BUDGET,
    ensures
        !spec_tick_n(m, n).online,
    decreases n,
{
    lemma_offline_helper(m, n);
}

proof fn lemma_offline_helper(m: TimeoutModel, n: nat)
    requires
        spec_wf_tm(m),
        spec_tm_potential(m) <= n,
    ensures
        !spec_tick_n(m, n).online,
        spec_wf_tm(spec_tick_n(m, n)),
    decreases n,
{
    if n == 0 {
        lemma_tick_step(m);
        assert(!m.online);
    } else {
        lemma_tick_step(m);
        let m1 = spec_tick_no_reply(m);
        lemma_offline_helper(m1, (n - 1) as nat);
        assert(spec_tick_n(m, n) == spec_tick_n(m1, (n - 1) as nat)) by {
            lemma_tick_commute(m, n);
        }
    }
}

/// Iterating from the front equals iterating from the back.
proof fn lemma_tick_commute(m: TimeoutModel, n: nat)
    requires
        n >= 1,
    ensures
        spec_tick_n(m, n) == spec_tick_n(spec_tick_no_reply(m), (n - 1) as nat),
    decreases n,
{
    if n == 1 {
        assert(spec_tick_n(m, 1) == spec_tick_no_reply(spec_tick_n(m, 0)));
        assert(spec_tick_n(spec_tick_no_reply(m), 0) == spec_tick_no_reply(m));
    } else {
        lemma_tick_commute(m, (n - 1) as nat);
        assert(spec_tick_n(m, n) == spec_tick_no_reply(spec_tick_n(m, (n - 1) as nat)));
        assert(spec_tick_n(spec_tick_no_reply(m), (n - 1) as nat) == spec_tick_no_reply(
            spec_tick_n(spec_tick_no_reply(m), (n - 2) as nat),
        ));
    }
}

/// How one refresh may move a PD connection while replies are being
/// routed: untouched, or with the retry budget reset because a valid
/// reply arrived (or the session was dropped for a new handshake).
pub open spec fn spec_route_disj(a: CpPd, b: CpPd) -> bool {
    b == a || (!b.awaiting && b.retries == 0 && b.timeout_ticks == 0 && b.info == a.info)
}

/// How the drive phase may move a PD connection's timeout projection:
/// untouched, exactly one reply-less model step, or reset by the send
/// that answers a processed reply.
pub open spec fn spec_drive_disj(a: CpPd, b: CpPd) -> bool {
    b.info == a.info && (spec_tm(b) == spec_tm(a) || spec_tm(b) == spec_tick_no_reply(spec_tm(a))
        || (b.retries == 0 && b.timeout_ticks == 0))
}

proof fn lemma_route_disj_trans(a: CpPd, b: CpPd, c: CpPd)
    requires
        spec_route_disj(a, b),
        spec_route_disj(b, c),
    ensures
        spec_route_disj(a, c),
{
}

impl CpPd {
    /// Structural well-formedness of one PD connection.
    pub open spec fn spec_wf(&self) -> bool {
        &&& self.sc.spec_wf()
        &&& self.ft.spec_wf()
        &&& spec_valid_address(self.info.address)
        &&& 1 <= self.seq <= 15
        &&& spec_wf_tm(spec_tm(*self))
    }

    /// One reply-less tick of the in-flight bookkeeping. Returns whether
    /// the in-flight frame must be resent now. Exactly the model step.
    fn tick_await(&mut self) -> (resend: bool)
        requires
            old(self).spec_wf(),
            old(self).awaiting,
        ensures
            final(self).spec_wf(),
            spec_tm(*final(self)) == spec_tick_no_reply(spec_tm(*old(self))),
            final(self).info == old(self).info,
            final(self).channel_idx == old(self).channel_idx,
            final(self).last_frame@ == old(self).last_frame@,
            resend == (old(self).timeout_ticks + 1 >= REPLY_TIMEOUT_TICKS && old(self).retries
                < RETRY_MAX),
    {
        if self.timeout_ticks + 1 < REPLY_TIMEOUT_TICKS {
            self.timeout_ticks = self.timeout_ticks + 1;
            false
        } else if self.retries < RETRY_MAX {
            self.retries = self.retries + 1;
            self.timeout_ticks = 0;
            true
        } else {
            // Retry budget exhausted: the PD is offline. The secure
            // session cannot outlive the connection; contact restarts
            // from the identity handshake.
            self.awaiting = false;
            self.timeout_ticks = 0;
            self.retries = 0;
            self.online = false;
            self.state = CpState::Offline;
            self.backoff_ticks = OFFLINE_BACKOFF_TICKS;
            self.sc.invalidate();
            false
        }
    }
}

/// Builder for creating a [`ControlPanel`].
#[derive(Debug)]
pub struct ControlPanelBuilder<C: Channel> {
    /// Channels, each with the PDs reached through it.
    pub channel_pds: Vec<(C, Vec<PdInfoBuilder>)>,
}

impl<C: Channel> ControlPanelBuilder<C> {
    /// Create an empty builder.
    pub fn new() -> (r: ControlPanelBuilder<C>)
        ensures
            r.channel_pds@.len() == 0,
    {
        ControlPanelBuilder { channel_pds: Vec::new() }
    }

    /// Add a channel and the PDs that share it, appended after the
    /// channels added so far: PD offset numbers in the built panel
    /// follow this insertion order.
    pub fn add_channel(self, channel: C, pd_info: Vec<PdInfoBuilder>) -> (r: ControlPanelBuilder<
        C,
    >)
        ensures
            r.channel_pds@ =~= self.channel_pds@.push((channel, pd_info)),
    {
        let mut b = self;
        b.channel_pds.push((channel, pd_info));
        b
    }

    /// Build the [`ControlPanel`]. Succeeds exactly when the bus
    /// carries at most 126 PDs and every PD description is valid: a
    /// supported baud rate, an address in 0..=126, a capability list
    /// that fits a report, and a base key wherever `enforce_secure` is
    /// set (install mode is the keyless state, and enforced security
    /// refuses it).
    pub fn build<F: OsdpFileOps>(self) -> (r: Result<ControlPanel<C, F>, OsdpError>)
        ensures
            r is Ok <==> (spec_pd_count(self.channel_pds@) <= 126 && forall|i: int, j: int|
                0 <= i < self.channel_pds@.len() && 0 <= j < self.channel_pds@[i].1@.len()
                    ==> spec_valid_pd_builder(#[trigger] self.channel_pds@[i].1@[j])),
            r matches Ok(cp) ==> cp.spec_wf() && cp.pds@.len() == spec_pd_count(
                self.channel_pds@,
            ),
            r matches Ok(cp) ==> (forall|j: int|
                0 <= j < cp.pds@.len() ==> spec_pd_initial(
                    #[trigger] cp.pds@[j],
                    spec_flat_builders(self.channel_pds@)[j],
                )),
    {
        let ghost orig = self.channel_pds@;
        proof {
            lemma_flat_len(orig);
        }
        proof {
            assert(orig.subrange(0, orig.len() as int) =~= orig);
        }
        // Validate the whole configuration before any PD state exists.
        let mut total: usize = 0;
        let mut ci: usize = 0;
        while ci < self.channel_pds.len()
            invariant
                ci <= orig.len(),
                self.channel_pds@ == orig,
                total + spec_pd_count(orig.subrange(ci as int, orig.len() as int))
                    == spec_pd_count(orig),
                total <= 126,
                forall|i: int, j: int|
                    0 <= i < ci && 0 <= j < orig[i].1@.len() ==> spec_valid_pd_builder(
                        #[trigger] orig[i].1@[j],
                    ),
            decreases orig.len() - ci,
        {
            proof {
                lemma_pd_count_step(orig, ci as int);
            }
            let infos = &self.channel_pds[ci].1;
            let mut j: usize = 0;
            while j < infos.len()
                invariant
                    ci < orig.len(),
                    self.channel_pds@ == orig,
                    infos@ == orig[ci as int].1@,
                    j <= infos@.len(),
                    total + (infos@.len() - j) + spec_pd_count(
                        orig.subrange(ci as int + 1, orig.len() as int),
                    ) == spec_pd_count(orig),
                    total <= 126,
                    forall|jj: int|
                        0 <= jj < j ==> spec_valid_pd_builder(#[trigger] orig[ci as int].1@[jj]),
                    forall|i: int, jj: int|
                        0 <= i < ci && 0 <= jj < orig[i].1@.len() ==> spec_valid_pd_builder(
                            #[trigger] orig[i].1@[jj],
                        ),
                decreases infos@.len() - j,
            {
                let b = &infos[j];
                let baud_ok = b.baud_rate == 9600 || b.baud_rate == 19200 || b.baud_rate == 38400
                    || b.baud_rate == 57600 || b.baud_rate == 115200 || b.baud_rate == 230400;
                let valid = baud_ok && 0 <= b.address && b.address <= 126 && b.cap.len() <= CAP_CAP
                    && !(b.flags.enforce_secure && (b.scbk.is_none() || b.flags.install_mode));
                if !valid {
                    proof {
                        assert(!spec_valid_pd_builder(orig[ci as int].1@[j as int]));
                    }
                    return Err(OsdpError::Setup);
                }
                if total >= 126 {
                    proof {
                        lemma_pd_count_nonneg(orig.subrange(ci as int + 1, orig.len() as int));
                        assert(spec_pd_count(orig) > 126);
                    }
                    return Err(OsdpError::PdInfo("max PD count exceeded"));
                }
                total = total + 1;
                j = j + 1;
            }
            ci = ci + 1;
        }
        proof {
            assert(orig.subrange(ci as int, orig.len() as int) =~= Seq::empty());
            assert(spec_pd_count(orig) == total);
        }
        // Everything is valid: assemble the runtime state.
        let mut channels: Vec<C> = Vec::new();
        let mut rx: Vec<Vec<u8>> = Vec::new();
        let mut txb: Vec<Vec<u8>> = Vec::new();
        let mut pds: Vec<CpPd> = Vec::new();
        let mut fops: Vec<Option<F>> = Vec::new();
        let mut pairs = self.channel_pds;
        while pairs.len() > 0
            invariant
                pairs@.len() <= orig.len(),
                pairs@ =~= orig.subrange(
                    orig.len() - pairs@.len(),
                    orig.len() as int,
                ),
                channels@.len() == rx@.len() && channels@.len() == txb@.len(),
                channels@.len() == orig.len() - pairs@.len(),
                pds@.len() == fops@.len(),
                pds@.len() + spec_pd_count(
                    orig.subrange(orig.len() - pairs@.len(), orig.len() as int),
                ) == spec_pd_count(orig),
                spec_flat_builders(orig).len() == spec_pd_count(orig),
                spec_flat_builders(orig).subrange(
                    pds@.len() as int,
                    spec_pd_count(orig),
                ) =~= spec_flat_builders(
                    orig.subrange(orig.len() - pairs@.len(), orig.len() as int),
                ),
                forall|j: int|
                    0 <= j < pds@.len() ==> spec_pd_initial(
                        #[trigger] pds@[j],
                        spec_flat_builders(orig)[j],
                    ),
                forall|j: int| 0 <= j < pds@.len() ==> (#[trigger] pds@[j]).spec_wf(),
                forall|j: int| 0 <= j < pds@.len() ==> (#[trigger] pds@[j]).channel_idx
                    < channels@.len(),
                forall|i: int, j: int|
                    0 <= i < orig.len() && 0 <= j < orig[i].1@.len() ==> spec_valid_pd_builder(
                        #[trigger] orig[i].1@[j],
                    ),
            decreases pairs@.len(),
        {
            let ghost k_int = orig.len() - pairs@.len();
            proof {
                lemma_pd_count_step(orig, k_int);
                lemma_flat_step(orig, k_int);
                assert(pairs@[0] == orig[k_int]);
            }
            let (channel, infos) = pairs.remove(0);
            let ghost infos0 = infos@;
            proof {
                assert(infos0 == orig[k_int].1@);
                assert(pairs@ =~= orig.subrange(k_int + 1, orig.len() as int));
            }
            let ch_idx = channels.len();
            channels.push(channel);
            rx.push(Vec::new());
            txb.push(Vec::new());
            let mut infos = infos;
            while infos.len() > 0
                invariant
                    0 <= k_int < orig.len(),
                    infos0 == orig[k_int].1@,
                    infos@.len() <= infos0.len(),
                    infos@ =~= infos0.subrange(
                        infos0.len() - infos@.len(),
                        infos0.len() as int,
                    ),
                    channels@.len() == rx@.len() && channels@.len() == txb@.len(),
                    channels@.len() == k_int + 1,
                    ch_idx < channels@.len(),
                    pds@.len() == fops@.len(),
                    pds@.len() + infos@.len() + spec_pd_count(
                        orig.subrange(k_int + 1, orig.len() as int),
                    ) == spec_pd_count(orig),
                    spec_flat_builders(orig).len() == spec_pd_count(orig),
                    spec_flat_builders(orig).subrange(
                        pds@.len() as int,
                        spec_pd_count(orig),
                    ) =~= infos@ + spec_flat_builders(
                        orig.subrange(k_int + 1, orig.len() as int),
                    ),
                    forall|j: int|
                        0 <= j < pds@.len() ==> spec_pd_initial(
                            #[trigger] pds@[j],
                            spec_flat_builders(orig)[j],
                        ),
                    forall|j: int| 0 <= j < pds@.len() ==> (#[trigger] pds@[j]).spec_wf(),
                    forall|j: int| 0 <= j < pds@.len() ==> (#[trigger] pds@[j]).channel_idx
                        < channels@.len(),
                    forall|i: int, j: int|
                        0 <= i < orig.len() && 0 <= j < orig[i].1@.len() ==> spec_valid_pd_builder(
                            #[trigger] orig[i].1@[j],
                        ),
                decreases infos@.len(),
            {
                let ghost n_int = infos0.len() - infos@.len();
                let ghost flat = spec_flat_builders(orig);
                let ghost p = pds@.len() as int;
                let ghost infos_pre = infos@;
                proof {
                    assert(infos@[0] == infos0[n_int]);
                    assert(spec_valid_pd_builder(infos0[n_int]));
                    lemma_pd_count_nonneg(orig.subrange(k_int + 1, orig.len() as int));
                    assert(p < spec_pd_count(orig));
                    assert(flat[p] == flat.subrange(p, spec_pd_count(orig))[0]);
                    assert(flat[p] == (infos@ + spec_flat_builders(
                        orig.subrange(k_int + 1, orig.len() as int),
                    ))[0]);
                }
                let builder = infos.remove(0);
                proof {
                    assert(infos@ =~= infos0.subrange(n_int + 1, infos0.len() as int));
                    assert(flat[p] == builder);
                }
                let info = builder.build();
                let sc = SecureChannelSession::new(info.scbk);
                pds.push(CpPd {
                    info,
                    channel_idx: ch_idx,
                    state: CpState::IdHandshake,
                    sc,
                    seq: 1,
                    awaiting: false,
                    last_frame: Vec::new(),
                    timeout_ticks: 0,
                    retries: 0,
                    backoff_ticks: 0,
                    online: false,
                    pd_id: None,
                    caps: Vec::new(),
                    cmd_queue: Vec::new(),
                    ft: FileTransferSession::idle(),
                    next_msg: None,
                    got_reply: false,
                });
                fops.push(None);
                proof {
                    assert(spec_pd_initial(pds@[p], flat[p]));
                    assert forall|j: int| 0 <= j < pds@.len() implies spec_pd_initial(
                        #[trigger] pds@[j],
                        flat[j],
                    ) by {}
                    lemma_pd_count_nonneg(orig.subrange(k_int + 1, orig.len() as int));
                    assert(p < spec_pd_count(orig));
                    let ghost rest = spec_flat_builders(orig.subrange(k_int + 1, orig.len() as int));
                    assert(flat.subrange(p, spec_pd_count(orig)) =~= infos_pre + rest);
                    assert((infos_pre + rest).subrange(1, (infos_pre + rest).len() as int)
                        =~= infos@ + rest);
                    assert(flat.subrange(p + 1, spec_pd_count(orig)) =~= flat.subrange(
                        p,
                        spec_pd_count(orig),
                    ).subrange(1, spec_pd_count(orig) - p));
                    assert(flat.subrange(p + 1, spec_pd_count(orig)) =~= infos@ + rest);
                }
            }
        }
        proof {
            assert(orig.subrange(orig.len() - pairs@.len(), orig.len() as int) =~= Seq::empty());
        }
        Ok(ControlPanel { pds, channels, rx, txb, fops, events_out: Vec::new() })
    }
}

/// The constraints one PD description must meet at setup time.
pub open spec fn spec_valid_pd_builder(b: PdInfoBuilder) -> bool {
    spec_valid_baud(b.baud_rate) && spec_valid_address(b.address) && b.cap@.len() <= CAP_CAP && (
    b.flags.enforce_secure ==> (b.scbk is Some && !b.flags.install_mode))
}

/// The number of PDs a builder configures, over all its channels.
pub open spec fn spec_pd_count<C: Channel>(s: Seq<(C, Vec<PdInfoBuilder>)>) -> int
    decreases s.len(),
{
    if s.len() == 0 {
        0
    } else {
        s[0].1@.len() + spec_pd_count(s.subrange(1, s.len() as int))
    }
}

/// Every PD description a builder configures, flattened in the offset
/// order the built panel uses.
pub open spec fn spec_flat_builders<C: Channel>(s: Seq<(C, Vec<PdInfoBuilder>)>) -> Seq<
    PdInfoBuilder,
>
    decreases s.len(),
{
    if s.len() == 0 {
        Seq::empty()
    } else {
        s[0].1@ + spec_flat_builders(s.subrange(1, s.len() as int))
    }
}

/// The initial runtime state of a PD connection built from one
/// description: the configuration carried over field by field, and the
/// machine at the start of its life cycle.
pub open spec fn spec_pd_initial(pd: CpPd, b: PdInfoBuilder) -> bool {
    &&& pd.info.address == b.address
    &&& pd.info.baud_rate == b.baud_rate
    &&& pd.info.flags == b.flags
    &&& pd.info.id == b.id
    &&& pd.info.cap@ == b.cap@
    &&& pd.info.scbk == b.scbk
    &&& (b.name matches Some(n) ==> pd.info.name@ == n@)
    &&& pd.state == CpState::IdHandshake
    &&& pd.sc.status == ScStatus::Inactive
    &&& (b.scbk matches Some(k) ==> pd.sc.base_key@ == k@)
    &&& (b.scbk is None ==> pd.sc.base_key@ == crate::sc::spec_default_scbk())
    &&& !pd.awaiting
    &&& pd.timeout_ticks == 0
    &&& pd.retries == 0
    &&& !pd.online
    &&& pd.pd_id is None
    &&& pd.caps@.len() == 0
    &&& pd.cmd_queue@.len() == 0
    &&& pd.ft.status == FtStatus::Idle
    &&& pd.next_msg is None
    &&& !pd.got_reply
    &&& pd.seq == 1
}

/// The flattened list is exactly as long as the count.
proof fn lemma_flat_len<C: Channel>(s: Seq<(C, Vec<PdInfoBuilder>)>)
    ensures
        spec_flat_builders(s).len() == spec_pd_count(s),
    decreases s.len(),
{
    if s.len() > 0 {
        lemma_flat_len(s.subrange(1, s.len() as int));
    }
}

/// Peeling one channel off the flattened list.
proof fn lemma_flat_step<C: Channel>(s: Seq<(C, Vec<PdInfoBuilder>)>, k: int)
    requires
        0 <= k < s.len(),
    ensures
        spec_flat_builders(s.subrange(k, s.len() as int)) =~= s[k].1@ + spec_flat_builders(
            s.subrange(k + 1, s.len() as int),
        ),
{
    let sub = s.subrange(k, s.len() as int);
    assert(sub[0] == s[k]);
    assert(sub.subrange(1, sub.len() as int) =~= s.subrange(k + 1, s.len() as int));
}

/// The count is never negative.
proof fn lemma_pd_count_nonneg<C: Channel>(s: Seq<(C, Vec<PdInfoBuilder>)>)
    ensures
        spec_pd_count(s) >= 0,
    decreases s.len(),
{
    if s.len() > 0 {
        lemma_pd_count_nonneg(s.subrange(1, s.len() as int));
    }
}

/// Peeling one channel off the count.
proof fn lemma_pd_count_step<C: Channel>(s: Seq<(C, Vec<PdInfoBuilder>)>, k: int)
    requires
        0 <= k < s.len(),
    ensures
        spec_pd_count(s.subrange(k, s.len() as int)) == s[k].1@.len() + spec_pd_count(
            s.subrange(k + 1, s.len() as int),
        ),
{
    let sub = s.subrange(k, s.len() as int);
    assert(sub[0] == s[k]);
    assert(sub.subrange(1, sub.len() as int) =~= s.subrange(k + 1, s.len() as int));
}

/// OSDP CP device context: drives every configured PD.
#[derive(Debug)]
pub struct ControlPanel<C: Channel, F: OsdpFileOps> {
    /// Per-PD connection state.
    pub pds: Vec<CpPd>,
    /// The channels, indexed by `CpPd::channel_idx`.
    pub channels: Vec<C>,
    /// Per-channel receive reassembly buffers.
    pub rx: Vec<Vec<u8>>,
    /// Per-channel transmit buffers.
    pub txb: Vec<Vec<u8>>,
    /// Per-PD registered file-operations collaborators.
    pub fops: Vec<Option<F>>,
    /// Events received from PDs, for the application to take in order.
    pub events_out: Vec<(i32, OsdpEvent)>,
}

impl<C: Channel, F: OsdpFileOps> ControlPanel<C, F> {
    /// Well-formedness of the PD connection table.
    pub open spec fn spec_wf_pds(&self) -> bool {
        &&& self.pds@.len() == self.fops@.len()
        &&& self.spec_pds_ok()
    }

    /// Structural well-formedness of the whole CP.
    pub open spec fn spec_wf(&self) -> bool {
        &&& self.channels@.len() == self.rx@.len()
        &&& self.channels@.len() == self.txb@.len()
        &&& self.spec_wf_pds()
    }

    /// Every PD connection in the table is well formed and points at an
    /// existing channel.
    pub open spec fn spec_pds_ok(&self) -> bool {
        &&& forall|j: int| 0 <= j < self.pds@.len() ==> (#[trigger] self.pds@[j]).spec_wf()
        &&& forall|j: int|
            0 <= j < self.pds@.len() ==> (#[trigger] self.pds@[j]).channel_idx
                < self.channels@.len()
    }

    /// Take one PD connection (and its collaborator) out of the table to
    /// work on it without holding a borrow of the whole CP.
    fn take_at(&mut self, idx: usize) -> (r: (CpPd, Option<F>))
        requires
            old(self).spec_wf_pds(),
            idx < old(self).pds@.len(),
        ensures
            final(self).spec_pds_ok(),
            final(self).pds@.len() == old(self).pds@.len() - 1,
            final(self).fops@.len() == final(self).pds@.len(),
            final(self).channels == old(self).channels,
            final(self).rx == old(self).rx,
            final(self).txb == old(self).txb,
            final(self).events_out == old(self).events_out,
            r.0.spec_wf(),
            r.0.channel_idx < final(self).channels@.len(),
            r.0 == old(self).pds@[idx as int],
            r.1 == old(self).fops@[idx as int],
            forall|j: int| 0 <= j < idx ==> final(self).pds@[j] == old(self).pds@[j],
            forall|j: int|
                idx <= j < final(self).pds@.len() ==> final(self).pds@[j] == old(self).pds@[j + 1],
            forall|j: int| 0 <= j < idx ==> final(self).fops@[j] == old(self).fops@[j],
            forall|j: int|
                idx <= j < final(self).fops@.len() ==> final(self).fops@[j] == old(self).fops@[j
                    + 1],
    {
        let ghost pds0 = self.pds@;
        let pd = self.pds.remove(idx);
        let fops = self.fops.remove(idx);
        proof {
            assert forall|j: int| 0 <= j < self.pds@.len() implies (#[trigger] self.pds@[
                j
            ]).spec_wf() && (#[trigger] self.pds@[j]).channel_idx < self.channels@.len() by {
                if j < idx {
                    assert(self.pds@[j] == pds0[j]);
                } else {
                    assert(self.pds@[j] == pds0[j + 1]);
                }
            }
        }
        (pd, fops)
    }

    /// Put a PD connection (and its collaborator) back into the table.
    fn put_back(&mut self, idx: usize, pd: CpPd, fops: Option<F>)
        requires
            old(self).spec_pds_ok(),
            old(self).pds@.len() == old(self).fops@.len(),
            idx <= old(self).pds@.len(),
            pd.spec_wf(),
            pd.channel_idx < old(self).channels@.len(),
        ensures
            final(self).spec_wf_pds(),
            final(self).pds@.len() == old(self).pds@.len() + 1,
            final(self).channels == old(self).channels,
            final(self).rx == old(self).rx,
            final(self).txb == old(self).txb,
            final(self).events_out == old(self).events_out,
            final(self).pds@[idx as int] == pd,
            forall|j: int| 0 <= j < idx ==> final(self).pds@[j] == old(self).pds@[j],
            forall|j: int|
                idx < j < final(self).pds@.len() ==> final(self).pds@[j] == old(self).pds@[j - 1],
            final(self).fops@[idx as int] == fops,
            forall|j: int| 0 <= j < idx ==> final(self).fops@[j] == old(self).fops@[j],
            forall|j: int|
                idx < j < final(self).fops@.len() ==> final(self).fops@[j] == old(self).fops@[j
                    - 1],
    {
        let ghost pds0 = self.pds@;
        self.pds.insert(idx, pd);
        self.fops.insert(idx, fops);
        proof {
            assert forall|j: int| 0 <= j < self.pds@.len() implies (#[trigger] self.pds@[
                j
            ]).spec_wf() && (#[trigger] self.pds@[j]).channel_idx < self.channels@.len() by {
                if j < idx {
                    assert(self.pds@[j] == pds0[j]);
                } else if j > idx {
                    assert(self.pds@[j] == pds0[j - 1]);
                }
            }
        }
    }

    /// Queue a command for a PD. Commands queue in submission order and
    /// go out one at a time: a command submitted while another is in
    /// flight is queued, never dropped. Rejected exactly when the PD
    /// index is out of range or the command's payload cannot ride the
    /// wire.
    pub fn send_command(&mut self, pd: i32, cmd: OsdpCommand) -> (r: Result<(), OsdpError>)
        requires
            old(self).spec_wf(),
        ensures
            final(self).spec_wf(),
            r is Ok <==> (0 <= pd < old(self).pds@.len() && crate::commands::spec_wf_command(
                cmd@,
            )),
            r is Ok ==> final(self).pds@[pd as int].cmd_queue@ =~= old(self).pds@[
                pd as int
            ].cmd_queue@.push(cmd),
            r is Err ==> final(self).pds@ == old(self).pds@,
    {
        if pd < 0 || pd as usize >= self.pds.len() {
            return Err(OsdpError::Command);
        }
        if !wf_command(&cmd) {
            return Err(OsdpError::Command);
        }
        let i = pd as usize;
        let (mut p, fops) = self.take_at(i);
        p.cmd_queue.push(cmd);
        self.put_back(i, p, fops);
        proof {
            assert(final(self).pds@[pd as int].cmd_queue@ =~= old(self).pds@[
                pd as int
            ].cmd_queue@.push(cmd));
        }
        Ok(())
    }

    /// Take the oldest event received from any PD that the application
    /// has not seen yet, with the index of the PD that sent it.
    pub fn next_event(&mut self) -> (r: Option<(i32, OsdpEvent)>)
        requires
            old(self).spec_wf(),
        ensures
            final(self).spec_wf(),
            old(self).events_out@.len() == 0 ==> r is None,
            old(self).events_out@.len() > 0 ==> r == Some(old(self).events_out@[0]),
    {
        if self.events_out.len() == 0 {
            None
        } else {
            Some(self.events_out.remove(0))
        }
    }

    /// The identity record learned from a PD, once its identity
    /// handshake completed.
    pub fn get_pd_id(&self, pd: i32) -> (r: Result<PdId, OsdpError>)
        requires
            self.spec_wf(),
        ensures
            r is Ok <==> (0 <= pd < self.pds@.len() && self.pds@[pd as int].pd_id is Some),
            r matches Ok(id) ==> self.pds@[pd as int].pd_id == Some(id),
    {
        if pd < 0 || pd as usize >= self.pds.len() {
            return Err(OsdpError::Query("PdId"));
        }
        match self.pds[pd as usize].pd_id {
            None => Err(OsdpError::Query("PdId")),
            Some(id) => Ok(id),
        }
    }

    /// The first capability in the PD's reported list that carries the
    /// function code of the given capability. An error exactly when the
    /// PD index is out of range or no learned capability carries that
    /// code.
    pub fn get_capability(&self, pd: i32, cap: PdCapability) -> (r: Result<PdCapability, OsdpError>)
        requires
            self.spec_wf(),
        ensures
            r matches Ok(c) ==> 0 <= pd < self.pds@.len() && crate::pdinfo::spec_cap_code(c)
                == crate::pdinfo::spec_cap_code(cap) && exists|j: int|
                {
                    &&& 0 <= j < self.pds@[pd as int].caps@.len()
                    &&& #[trigger] self.pds@[pd as int].caps@[j] == c
                    &&& forall|jj: int|
                        0 <= jj < j ==> crate::pdinfo::spec_cap_code(
                            #[trigger] self.pds@[pd as int].caps@[jj],
                        ) != crate::pdinfo::spec_cap_code(cap)
                },
            r is Err && 0 <= pd < self.pds@.len() ==> forall|j: int|
                0 <= j < self.pds@[pd as int].caps@.len() ==> crate::pdinfo::spec_cap_code(
                    #[trigger] self.pds@[pd as int].caps@[j],
                ) != crate::pdinfo::spec_cap_code(cap),
    {
        if pd < 0 || pd as usize >= self.pds.len() {
            return Err(OsdpError::Query("capability"));
        }
        let caps = &self.pds[pd as usize].caps;
        let want = cap.function_code();
        let mut i: usize = 0;
        while i < caps.len()
            invariant
                i <= caps@.len(),
                0 <= pd < self.pds@.len(),
                caps@ == self.pds@[pd as int].caps@,
                want == crate::pdinfo::spec_cap_code(cap),
                forall|j: int| 0 <= j < i ==> crate::pdinfo::spec_cap_code(#[trigger] caps@[j])
                    != want,
            decreases caps@.len() - i,
        {
            if caps[i].function_code() == want {
                let c = caps[i];
                proof {
                    assert(self.pds@[pd as int].caps@[i as int] == c);
                }
                return Ok(c);
            }
            i = i + 1;
        }
        Err(OsdpError::Query("capability"))
    }

    /// Set or clear flags of a PD at run time: the addressed PD's flag
    /// set is the union with (or removal of) the given flags and nothing
    /// else changes. An index out of range changes nothing, in line with
    /// the policy that only terminal conditions surface.
    pub fn set_flag(&mut self, pd: i32, flags: crate::OsdpFlag, value: bool)
        requires
            old(self).spec_wf(),
        ensures
            final(self).spec_wf(),
            !(0 <= pd < old(self).pds@.len()) ==> *final(self) == *old(self),
            0 <= pd < old(self).pds@.len() ==> {
                &&& final(self).pds@.len() == old(self).pds@.len()
                &&& forall|j: int|
                    0 <= j < old(self).pds@.len() && j != pd ==> final(self).pds@[j] == old(self).pds@[j]
                &&& final(self).pds@[pd as int] == (CpPd {
                    info: final(self).pds@[pd as int].info,
                    ..old(self).pds@[pd as int]
                })
                &&& final(self).pds@[pd as int].info == (PdInfo {
                    flags: final(self).pds@[pd as int].info.flags,
                    ..old(self).pds@[pd as int].info
                })
                &&& (value ==> final(self).pds@[pd as int].info.flags == old(self).pds@[
                    pd as int
                ].info.flags.spec_union(flags))
                &&& (!value ==> final(self).pds@[pd as int].info.flags == old(self).pds@[
                    pd as int
                ].info.flags.spec_minus(flags))
                &&& *final(self) == (ControlPanel { pds: final(self).pds, fops: final(self).fops, ..*old(self) })
            },
    {
        if pd < 0 || pd as usize >= self.pds.len() {
            return ;
        }
        let i = pd as usize;
        let (mut p, fops) = self.take_at(i);
        p.info.flags.set(flags, value);
        self.put_back(i, p, fops);
        proof {
            assert(self.fops@ =~= old(self).fops@);
        }
    }

    /// Whether a PD answered within its retry budget. False for an index
    /// out of range.
    pub fn is_online(&self, pd: i32) -> (r: bool)
        requires
            self.spec_wf(),
        ensures
            r == (0 <= pd < self.pds@.len() && self.pds@[pd as int].online),
    {
        if pd < 0 || pd as usize >= self.pds.len() {
            return false;
        }
        self.pds[pd as usize].online
    }

    /// Whether a PD's secure-channel session is Active. False for an
    /// index out of range.
    pub fn is_sc_active(&self, pd: i32) -> (r: bool)
        requires
            self.spec_wf(),
        ensures
            r == (0 <= pd < self.pds@.len() && self.pds@[pd as int].sc.status == ScStatus::Active),
    {
        if pd < 0 || pd as usize >= self.pds.len() {
            return false;
        }
        match self.pds[pd as usize].sc.status {
            ScStatus::Active => true,
            _ => false,
        }
    }

    /// `(size, offset)` of a PD's running file transfer, or an error
    /// while none is.
    pub fn file_transfer_status(&self, pd: i32) -> (r: Result<(i32, i32), OsdpError>)
        requires
            self.spec_wf(),
        ensures
            r is Ok <==> (0 <= pd < self.pds@.len() && self.pds@[pd as int].ft.status
                != FtStatus::Idle),
            r matches Ok(p) ==> p.0 == self.pds@[pd as int].ft.size as i32 && p.1 == self.pds@[
                pd as int
            ].ft.offset as i32,
    {
        if pd < 0 || pd as usize >= self.pds.len() {
            return Err(OsdpError::FileTransfer("not in progress"));
        }
        self.pds[pd as usize].ft.status_query()
    }

    /// Register the file-operations collaborator a PD's transfers go
    /// through: stored in that PD's slot, everything else untouched, so
    /// the PD's file content thereafter flows only through it.
    pub fn register_file_ops(&mut self, pd: i32, fops: F) -> (r: Result<(), OsdpError>)
        requires
            old(self).spec_wf(),
        ensures
            final(self).spec_wf(),
            r is Ok <==> 0 <= pd < old(self).pds@.len(),
            r is Err ==> *final(self) == *old(self),
            r is Ok ==> final(self).fops@ =~= old(self).fops@.update(pd as int, Some(fops)),
            r is Ok ==> *final(self) == (ControlPanel { fops: final(self).fops, ..*old(self) }),
    {
        if pd < 0 || pd as usize >= self.pds.len() {
            return Err(OsdpError::FileTransfer("ops register"));
        }
        let i = pd as usize;
        let _ = self.fops.remove(i);
        self.fops.insert(i, Some(fops));
        proof {
            assert(final(self).fops@ =~= old(self).fops@.update(pd as int, Some(fops)));
        }
        Ok(())
    }

    /// Drive every PD: pump buffered output, pull replies (one read
    /// attempt per channel), account for missing ones, and send at most
    /// one new frame per due PD. Never blocks. Whatever the channels
    /// produced: the set of PDs and each PD's configuration are
    /// untouched, received events are only appended for the application
    /// to take, and each PD's timeout bookkeeping either advances by at
    /// most one reply-less step of the offline model
    /// ([`spec_tick_no_reply`]) or has its retry budget reset because a
    /// valid reply was taken this refresh. With
    /// [`lemma_offline_after_budget`] this pins offline detection: a
    /// connection whose channel never yields a valid reply is offline
    /// within `CP_OFFLINE_BUDGET` refreshes.
    pub fn refresh(&mut self)
        requires
            old(self).spec_wf(),
        ensures
            final(self).spec_wf(),
            final(self).pds@.len() == old(self).pds@.len(),
            old(self).events_out@.is_prefix_of(final(self).events_out@),
            forall|j: int|
                0 <= j < old(self).pds@.len() ==> (#[trigger] final(self).pds@[j]).info == old(self).pds@[j].info,
            forall|j: int|
                0 <= j < old(self).pds@.len() ==> (spec_tm(#[trigger] final(self).pds@[j])
                    == spec_tm(old(self).pds@[j]) || spec_tm(final(self).pds@[j])
                    == spec_tick_no_reply(spec_tm(old(self).pds@[j])) || final(self).pds@[
                    j
                ].retries == 0),
            // Progress: a connection that was awaiting its reply either
            // had the reply taken (budget reset) or moved exactly one
            // reply-less model step — the refresh never stalls the
            // offline countdown.
            forall|j: int|
                0 <= j < old(self).pds@.len() && old(self).pds@[j].awaiting && !old(self).pds@[
                    j
                ].got_reply ==> (spec_tm(#[trigger] final(self).pds@[j]) == spec_tick_no_reply(
                    spec_tm(old(self).pds@[j]),
                ) || (final(self).pds@[j].retries == 0 && final(self).pds@[j].timeout_ticks == 0)),
    {
        // Pump output left from earlier, then make the one read attempt.
        let mut ch: usize = 0;
        while ch < self.channels.len()
            invariant
                self.spec_wf(),
                ch <= self.channels@.len(),
                self.channels@.len() == old(self).channels@.len(),
                self.pds@ == old(self).pds@,
                self.events_out == old(self).events_out,
            decreases self.channels@.len() - ch,
        {
            self.pump_channel_tx(ch);
            self.pump_channel_rx(ch);
            ch = ch + 1;
        }
        // Route every complete frame to its PD.
        let mut ch: usize = 0;
        while ch < self.channels.len()
            invariant
                self.spec_wf(),
                ch <= self.channels@.len(),
                self.channels@.len() == old(self).channels@.len(),
                self.pds@.len() == old(self).pds@.len(),
                forall|j: int|
                    0 <= j < old(self).pds@.len() ==> spec_route_disj(
                        old(self).pds@[j],
                        #[trigger] self.pds@[j],
                    ),
                old(self).events_out@.is_prefix_of(self.events_out@),
            decreases self.channels@.len() - ch,
        {
            let ghost pre = self.pds@;
            let ghost pre_ev = self.events_out@;
            self.route_frames(ch);
            proof {
                assert forall|j: int| 0 <= j < old(self).pds@.len() implies spec_route_disj(
                    old(self).pds@[j],
                    #[trigger] self.pds@[j],
                ) by {
                    lemma_route_disj_trans(old(self).pds@[j], pre[j], self.pds@[j]);
                }
                assert(old(self).events_out@.is_prefix_of(self.events_out@)) by {
                    assert(self.events_out@.subrange(0, old(self).events_out@.len() as int)
                        =~= old(self).events_out@);
                }
            }
            ch = ch + 1;
        }
        // Account for missing replies and send the next frames.
        let ghost mid = self.pds@;
        let ghost mid_ev = self.events_out@;
        let mut i: usize = 0;
        while i < self.pds.len()
            invariant
                self.spec_wf(),
                i <= self.pds@.len(),
                self.channels@.len() == old(self).channels@.len(),
                self.pds@.len() == mid.len(),
                mid.len() == old(self).pds@.len(),
                forall|j: int| i <= j < mid.len() ==> #[trigger] self.pds@[j] == mid[j],
                forall|j: int|
                    0 <= j < i ==> spec_drive_disj(mid[j], #[trigger] self.pds@[j]),
                forall|j: int|
                    0 <= j < i && mid[j].awaiting && !mid[j].got_reply ==> (spec_tm(
                        #[trigger] self.pds@[j],
                    ) == spec_tick_no_reply(spec_tm(mid[j])) || (self.pds@[j].retries == 0
                        && self.pds@[j].timeout_ticks == 0)),
                forall|j: int|
                    0 <= j < i && !mid[j].awaiting ==> (spec_tm(#[trigger] self.pds@[j])
                        == spec_tm(mid[j]) || (self.pds@[j].retries == 0 && self.pds@[
                        j
                    ].timeout_ticks == 0)),
                self.events_out@ == mid_ev,
                forall|j: int|
                    0 <= j < mid.len() ==> spec_route_disj(
                        old(self).pds@[j],
                        #[trigger] mid[j],
                    ),
                mid_ev == self.events_out@,
                old(self).events_out@.is_prefix_of(mid_ev),
            decreases self.pds@.len() - i,
        {
            let ghost pre = self.pds@;
            self.drive_pd(i);
            proof {
                assert forall|j: int| 0 <= j < i + 1 implies spec_drive_disj(
                    mid[j],
                    #[trigger] self.pds@[j],
                ) by {
                    if j < i {
                        assert(self.pds@[j] == pre[j]);
                    } else {
                        assert(pre[j] == mid[j]);
                    }
                }
                assert forall|j: int|
                    0 <= j < i + 1 && mid[j].awaiting && !mid[j].got_reply implies (spec_tm(
                    #[trigger] self.pds@[j],
                ) == spec_tick_no_reply(spec_tm(mid[j])) || (self.pds@[j].retries == 0
                    && self.pds@[j].timeout_ticks == 0)) by {
                    if j < i {
                        assert(self.pds@[j] == pre[j]);
                    } else {
                        assert(pre[j] == mid[j]);
                    }
                }
                assert forall|j: int| 0 <= j < i + 1 && !mid[j].awaiting implies (spec_tm(
                    #[trigger] self.pds@[j],
                ) == spec_tm(mid[j]) || (self.pds@[j].retries == 0 && self.pds@[j].timeout_ticks
                    == 0)) by {
                    if j < i {
                        assert(self.pds@[j] == pre[j]);
                    } else {
                        assert(pre[j] == mid[j]);
                    }
                }
            }
            i = i + 1;
        }
        // Combine the two phases for every connection.
        proof {
            assert forall|j: int|
                0 <= j < old(self).pds@.len() && old(self).pds@[j].awaiting && !old(self).pds@[
                    j
                ].got_reply implies (spec_tm(#[trigger] self.pds@[j]) == spec_tick_no_reply(
                spec_tm(old(self).pds@[j]),
            ) || (self.pds@[j].retries == 0 && self.pds@[j].timeout_ticks == 0)) by {
                let a = old(self).pds@[j];
                let b = mid[j];
                let c = self.pds@[j];
                assert(spec_route_disj(a, b));
                if b == a {
                    // Untouched by routing: the drive phase ticked it.
                } else {
                    // A reply (or session drop) took the frame out of
                    // flight with the budget reset; the drive phase
                    // keeps a reset budget reset.
                    assert(!b.awaiting && b.retries == 0 && b.timeout_ticks == 0);
                }
            }
            assert forall|j: int|
                0 <= j < old(self).pds@.len() implies ((#[trigger] self.pds@[j]).info == old(self).pds@[j].info && (spec_tm(self.pds@[j]) == spec_tm(old(self).pds@[j]) || spec_tm(
                self.pds@[j],
            ) == spec_tick_no_reply(spec_tm(old(self).pds@[j])) || self.pds@[j].retries == 0)) by {
                let a = old(self).pds@[j];
                let b = mid[j];
                let c = self.pds@[j];
                assert(spec_route_disj(a, b));
                assert(spec_drive_disj(b, c));
                if spec_tm(b) == spec_tm(a) {
                } else {
                    // A valid reply reset the budget during routing; one
                    // reply-less step from a zeroed timeout keeps the
                    // retry count at zero.
                    assert(b.retries == 0 && b.timeout_ticks == 0);
                    if spec_tm(c) == spec_tick_no_reply(spec_tm(b)) {
                        assert(spec_tm(b).timeout + 1 < REPLY_TIMEOUT_TICKS);
                        assert(c.retries == 0);
                    }
                }
            }
            assert(old(self).events_out@.is_prefix_of(self.events_out@));
        }
        // Pump what the drives queued.
        let mut ch: usize = 0;
        while ch < self.channels.len()
            invariant
                self.spec_wf(),
                ch <= self.channels@.len(),
                self.pds@.len() == old(self).pds@.len(),
                forall|j: int|
                    0 <= j < old(self).pds@.len() ==> (#[trigger] self.pds@[j]).info == old(self).pds@[j].info,
                forall|j: int|
                    0 <= j < old(self).pds@.len() ==> (spec_tm(#[trigger] self.pds@[j]) == spec_tm(
                        old(self).pds@[j],
                    ) || spec_tm(self.pds@[j]) == spec_tick_no_reply(spec_tm(old(self).pds@[j]))
                        || self.pds@[j].retries == 0),
                forall|j: int|
                    0 <= j < old(self).pds@.len() && old(self).pds@[j].awaiting && !old(self).pds@[j].got_reply ==> (spec_tm(#[trigger] self.pds@[j])
                        == spec_tick_no_reply(spec_tm(old(self).pds@[j])) || (self.pds@[
                        j
                    ].retries == 0 && self.pds@[j].timeout_ticks == 0)),
                old(self).events_out@.is_prefix_of(self.events_out@),
            decreases self.channels@.len() - ch,
        {
            self.pump_channel_tx(ch);
            ch = ch + 1;
        }
    }

    /// Write buffered bytes to a channel.
    fn pump_channel_tx(&mut self, ch: usize)
        requires
            old(self).spec_wf(),
            ch < old(self).channels@.len(),
        ensures
            final(self).spec_wf(),
            final(self).channels@.len() == old(self).channels@.len(),
            final(self).pds@.len() == old(self).pds@.len(),
            final(self).pds@ == old(self).pds@,
            final(self).events_out == old(self).events_out,
    {
        let mut channel = self.channels.remove(ch);
        let mut txbuf = self.txb.remove(ch);
        if txbuf.len() > 0 {
            match channel.write(txbuf.as_slice()) {
                Ok(n) => {
                    let rest = drain_from(&txbuf, n);
                    txbuf = rest;
                    let _ = channel.flush();
                },
                Err(_) => {},
            }
        }
        self.txb.insert(ch, txbuf);
        self.channels.insert(ch, channel);
    }

    /// Pull pending bytes from a channel into its reassembly buffer:
    /// the one read attempt of a refresh.
    fn pump_channel_rx(&mut self, ch: usize)
        requires
            old(self).spec_wf(),
            ch < old(self).channels@.len(),
        ensures
            final(self).spec_wf(),
            final(self).channels@.len() == old(self).channels@.len(),
            final(self).pds@.len() == old(self).pds@.len(),
            final(self).pds@ == old(self).pds@,
            final(self).events_out == old(self).events_out,
    {
        let mut channel = self.channels.remove(ch);
        let mut rxbuf = self.rx.remove(ch);
        match channel.read(256) {
            Ok(bytes) => {
                if rxbuf.len() <= 4096 && bytes.len() <= 4096 - rxbuf.len() {
                    push_bytes(&mut rxbuf, bytes.as_slice());
                } else {
                    rxbuf = bytes;
                }
            },
            Err(_) => {},
        }
        self.rx.insert(ch, rxbuf);
        self.channels.insert(ch, channel);
    }

    /// Extract and dispatch every complete frame waiting on a channel.
    fn route_frames(&mut self, ch: usize)
        requires
            old(self).spec_wf(),
            ch < old(self).channels@.len(),
        ensures
            final(self).spec_wf(),
            final(self).channels@.len() == old(self).channels@.len(),
            final(self).pds@.len() == old(self).pds@.len(),
            forall|j: int|
                0 <= j < old(self).pds@.len() ==> spec_route_disj(
                    old(self).pds@[j],
                    #[trigger] final(self).pds@[j],
                ),
            old(self).events_out@.is_prefix_of(final(self).events_out@),
    {
        let mut rxbuf = self.rx.remove(ch);
        loop
            invariant
                self.spec_wf_pds(),
                self.channels@.len() == old(self).channels@.len(),
                self.txb@.len() == old(self).txb@.len(),
                self.pds@.len() == old(self).pds@.len(),
                self.rx@.len() + 1 == old(self).rx@.len(),
                old(self).rx@.len() == old(self).channels@.len(),
                old(self).txb@.len() == old(self).channels@.len(),
                forall|j: int|
                    0 <= j < old(self).pds@.len() ==> spec_route_disj(
                        old(self).pds@[j],
                        #[trigger] self.pds@[j],
                    ),
                old(self).events_out@.is_prefix_of(self.events_out@),
            decreases rxbuf@.len(),
        {
            let frame = extract_frame(&mut rxbuf);
            match frame {
                None => { break ; },
                Some(f) => {
                    match decode_packet(f.as_slice()) {
                        Err(_) => {
                            // Malformed or corrupt: transport noise,
                            // discarded; the stream has resynchronized.
                        },
                        Ok((h, payload)) => {
                            if h.is_reply {
                                let ghost pre = self.pds@;
                                let ghost pre_ev = self.events_out@;
                                self.handle_reply(ch, &h, payload);
                                proof {
                                    assert forall|j: int|
                                        0 <= j < old(self).pds@.len() implies spec_route_disj(
                                        old(self).pds@[j],
                                        #[trigger] self.pds@[j],
                                    ) by {
                                        lemma_route_disj_trans(
                                            old(self).pds@[j],
                                            pre[j],
                                            self.pds@[j],
                                        );
                                    }
                                    assert(old(self).events_out@.is_prefix_of(
                                        self.events_out@,
                                    )) by {
                                        assert(self.events_out@.subrange(
                                            0,
                                            old(self).events_out@.len() as int,
                                        ) =~= old(self).events_out@);
                                    }
                                }
                            }
                        },
                    }
                },
            }
        }
        // The buffer index still exists: re-insert what is left.
        if self.rx.len() >= ch {
            self.rx.insert(ch, rxbuf);
        }
    }

    /// The index of the PD reached through a channel under an address.
    fn find_pd(&self, ch: usize, address: u8) -> (r: Option<usize>)
        requires
            self.spec_wf_pds(),
        ensures
            r matches Some(i) ==> i < self.pds@.len(),
    {
        let mut idx: usize = 0;
        while idx < self.pds.len()
            invariant
                self.spec_wf_pds(),
                idx <= self.pds@.len(),
            decreases self.pds@.len() - idx,
        {
            let p = &self.pds[idx];
            if p.channel_idx == ch && p.info.address as u8 == address {
                return Some(idx);
            }
            idx = idx + 1;
        }
        None
    }

    /// Find the PD a reply belongs to and process it. Every connection
    /// keeps its configuration; its timeout bookkeeping is either left
    /// alone or reset because a valid, in-sequence reply was taken (or
    /// the session was dropped for a fresh handshake).
    fn handle_reply(&mut self, ch: usize, h: &PacketHeader, payload: Vec<u8>)
        requires
            old(self).spec_wf_pds(),
        ensures
            final(self).spec_wf_pds(),
            final(self).channels@.len() == old(self).channels@.len(),
            final(self).txb@.len() == old(self).txb@.len(),
            final(self).pds@.len() == old(self).pds@.len(),
            final(self).rx@.len() == old(self).rx@.len(),
            forall|j: int|
                0 <= j < old(self).pds@.len() ==> spec_route_disj(
                    old(self).pds@[j],
                    #[trigger] final(self).pds@[j],
                ),
            old(self).events_out@.is_prefix_of(final(self).events_out@),
    {
        // Find the addressed PD on this channel.
        let idx: usize = match self.find_pd(ch, h.address) {
            Some(i) => i,
            None => {
                // No PD of ours: an unsolicited or foreign reply,
                // ignored.
                return ;
            },
        };
        let (mut pd, mut fops) = self.take_at(idx);
        if !pd.awaiting {
            // Unsolicited: nothing of ours is in flight. Ignored (the
            // `ignore_unsolicited` flag would make this fatal handling
            // lenient; the engine is lenient either way).
            self.put_back(idx, pd, fops);
            return ;
        }
        if h.seq != pd.seq {
            let prev_seq: u8 = if pd.seq == 1 {
                15
            } else {
                pd.seq - 1
            };
            if h.seq == prev_seq {
                // A duplicate of the reply to our previous frame: the
                // PD did not receive our acknowledgement. Resend the
                // identical in-flight frame rather than advancing.
                let ch_idx = pd.channel_idx;
                if ch_idx < self.txb.len() {
                    let mut txbuf = self.txb.remove(ch_idx);
                    if txbuf.len() <= 8192 && pd.last_frame.len() <= 8192 - txbuf.len() {
                        let lf = pd.last_frame.clone();
                        push_bytes(&mut txbuf, lf.as_slice());
                    }
                    self.txb.insert(ch_idx, txbuf);
                }
            }
            // Otherwise: a stale reply, ignored.
            self.put_back(idx, pd, fops);
            return ;
        }
        // Recover the plain message.
        let msg_bytes: Vec<u8>;
        if h.sc_active {
            let usable = match pd.sc.status {
                ScStatus::Active => true,
                ScStatus::Handshaking => true,
                ScStatus::Inactive => false,
            };
            if !usable || payload.len() >= 0x10000 {
                self.put_back(idx, pd, fops);
                return ;
            }
            match pd.sc.unwrap_secure(h, payload.as_slice()) {
                None => {
                    // MAC failure: the session is invalidated; force a
                    // fresh handshake and never hand the payload on.
                    pd.state = CpState::SecureHandshake;
                    pd.awaiting = false;
                    pd.timeout_ticks = 0;
                    pd.retries = 0;
                    pd.next_msg = None;
                    self.put_back(idx, pd, fops);
                    return ;
                },
                Some(p) => {
                    msg_bytes = p;
                },
            }
        } else {
            msg_bytes = payload;
        }
        // A valid, in-sequence reply: the PD is alive.
        pd.awaiting = false;
        pd.timeout_ticks = 0;
        pd.retries = 0;
        pd.online = true;
        pd.got_reply = true;
        match decode_message(msg_bytes.as_slice()) {
            None => {
                // Unknown reply payload: tolerated, the cycle continues.
            },
            Some(m) => {
                self.dispatch_reply(&mut pd, &mut fops, idx, m);
            },
        }
        self.put_back(idx, pd, fops);
    }

    /// Advance a PD's protocol state for one decoded reply.
    fn dispatch_reply(&mut self, pd: &mut CpPd, fops: &mut Option<F>, pd_idx: usize, m: Message)
        requires
            old(pd).spec_wf(),
            !old(pd).awaiting,
            old(pd).timeout_ticks == 0,
        ensures
            final(pd).spec_wf(),
            !final(pd).awaiting,
            final(pd).timeout_ticks == 0,
            final(pd).retries == old(pd).retries,
            final(pd).channel_idx == old(pd).channel_idx,
            final(pd).info == old(pd).info,
            *final(self) == (ControlPanel { events_out: final(self).events_out, ..*old(self) }),
            old(self).events_out@.is_prefix_of(final(self).events_out@),
    {
        match m {
            Message::PdIdRep(id) => {
                if pd.state == CpState::IdHandshake {
                    pd.pd_id = Some(id);
                    pd.state = CpState::CapabilitiesQuery;
                }
            },
            Message::CapRep(caps) => {
                if pd.state == CpState::CapabilitiesQuery {
                    pd.caps = caps;
                    let wants_sc = pd.info.scbk.is_some() || pd.info.flags.install_mode;
                    pd.state = if wants_sc {
                        CpState::SecureHandshake
                    } else {
                        CpState::Polling
                    };
                }
            },
            Message::CCrypt { nonce, cryptogram } => {
                if pd.state == CpState::SecureHandshake && nonce.len() == 8 && cryptogram.len()
                    == 16 {
                    let handshaking = match pd.sc.status {
                        ScStatus::Handshaking => true,
                        _ => false,
                    };
                    if handshaking {
                        match pd.sc.cp_on_ccrypt(&nonce, &cryptogram) {
                            Some(confirmation) => {
                                pd.next_msg = Some(Message::SCrypt(confirmation));
                            },
                            None => {
                                sc_failed(pd);
                            },
                        }
                    }
                }
            },
            Message::ScAck => {
                if pd.state == CpState::SecureHandshake {
                    // The acknowledgement only reaches us through the
                    // protected envelope, so the PD provably derived the
                    // same keys.
                    pd.sc.cp_complete();
                    pd.state = CpState::Polling;
                }
            },
            Message::Ack => {
                if pd.state == CpState::CommandInFlight {
                    pd.state = CpState::Polling;
                }
            },
            Message::Nak(code) => {
                if pd.state == CpState::SecureHandshake {
                    sc_failed(pd);
                } else if code == crate::pd::NAK_SEC {
                    // The PD lost the session (a MAC failure on its
                    // side): re-handshake.
                    pd.sc.invalidate();
                    pd.next_msg = None;
                    if pd.state == CpState::CommandInFlight {
                        pd.state = CpState::Polling;
                    }
                    if pd.info.scbk.is_some() || pd.info.flags.install_mode {
                        pd.state = CpState::SecureHandshake;
                    }
                } else if pd.state == CpState::CommandInFlight {
                    // Command refused; surface nothing, keep polling.
                    if pd.ft.status == FtStatus::Open || pd.ft.status == FtStatus::Transferring {
                        pd.ft.fail();
                        close_fops(fops);
                    }
                    pd.state = CpState::Polling;
                }
            },
            Message::EventRep(e) => {
                if self.events_out.len() < 1024 {
                    self.events_out.push((pd_idx as i32, e));
                }
            },
            Message::FileAccept { size, max_frag } => {
                if pd.state == CpState::CommandInFlight && pd.ft.status == FtStatus::Open {
                    if max_frag == 0 || size != pd.ft.size {
                        pd.ft.fail();
                        close_fops(fops);
                    } else {
                        let mf: u16 = if max_frag as usize > FRAG_CAP {
                            FRAG_CAP as u16
                        } else {
                            max_frag
                        };
                        pd.ft = FileTransferSession {
                            status: FtStatus::Transferring,
                            max_frag: mf,
                            ..pd.ft
                        };
                    }
                    pd.state = CpState::Polling;
                }
            },
            Message::FileStat { offset } => {
                if pd.state == CpState::CommandInFlight && pd.ft.status == FtStatus::Transferring {
                    if offset <= pd.ft.size {
                        pd.ft = FileTransferSession { offset, ..pd.ft };
                        if offset == pd.ft.size {
                            pd.ft = FileTransferSession {
                                status: FtStatus::Complete,
                                ..pd.ft
                            };
                            close_fops(fops);
                        }
                    } else {
                        pd.ft.fail();
                        close_fops(fops);
                    }
                    pd.state = CpState::Polling;
                }
            },
            _ => {
                // A request kind from a responder: ignored.
            },
        }
    }

    /// Account for a PD's tick and send its next frame if one is due.
    /// Only the driven connection changes, by at most one reply-less
    /// model step (or the reset of a fresh send).
    fn drive_pd(&mut self, i: usize)
        requires
            old(self).spec_wf(),
            i < old(self).pds@.len(),
        ensures
            final(self).spec_wf(),
            final(self).channels@.len() == old(self).channels@.len(),
            final(self).rx@.len() == old(self).rx@.len(),
            final(self).pds@.len() == old(self).pds@.len(),
            forall|j: int|
                0 <= j < old(self).pds@.len() && j != i ==> final(self).pds@[j] == old(self).pds@[
                    j
                ],
            spec_drive_disj(old(self).pds@[i as int], final(self).pds@[i as int]),
            // A waiting connection that took no reply this refresh
            // advances by exactly one reply-less model step.
            (old(self).pds@[i as int].awaiting && !old(self).pds@[i as int].got_reply) ==> spec_tm(
                final(self).pds@[i as int],
            ) == spec_tick_no_reply(spec_tm(old(self).pds@[i as int])),
            // An idle connection either rests or arms a fresh frame with
            // its budget reset.
            !old(self).pds@[i as int].awaiting ==> (spec_tm(final(self).pds@[i as int]) == spec_tm(
                old(self).pds@[i as int],
            ) || (final(self).pds@[i as int].retries == 0 && final(self).pds@[
                i as int
            ].timeout_ticks == 0)),
            final(self).events_out == old(self).events_out,
            // The state-directed choice of the one frame a due PD gets:
            // an identity request while the PD is unknown, a capability
            // request next, a fresh challenge when the handshake starts,
            // and a plain poll when nothing else is pending.
            spec_due_plain(old(self).pds@[i as int], CpState::IdHandshake) ==> final(self).pds@[
                i as int
            ].last_frame@ == spec_plain_frame(
                old(self).pds@[i as int],
                crate::message::MessageView::ReqId,
            ),
            spec_due_plain(old(self).pds@[i as int], CpState::CapabilitiesQuery) ==> final(self).pds@[i as int].last_frame@ == spec_plain_frame(
                old(self).pds@[i as int],
                crate::message::MessageView::ReqCap,
            ),
            (spec_due_plain(old(self).pds@[i as int], CpState::SecureHandshake) && old(self).pds@[
                i as int
            ].next_msg is None) ==> final(self).pds@[i as int].last_frame@ == spec_plain_frame(
                old(self).pds@[i as int],
                crate::message::MessageView::Chlng {
                    nonce: final(self).pds@[i as int].sc.cp_nonce@,
                },
            ),
            (spec_due_plain(old(self).pds@[i as int], CpState::Polling) && old(self).pds@[
                i as int
            ].ft.status != crate::file::FtStatus::Transferring && old(self).pds@[
                i as int
            ].cmd_queue@.len() == 0) ==> final(self).pds@[i as int].last_frame@ == spec_plain_frame(
                old(self).pds@[i as int],
                crate::message::MessageView::Poll,
            ),
    {
        let (mut pd, mut fops) = self.take_at(i);
        if pd.got_reply {
            pd.got_reply = false;
            // Handshake progress decided by the reply goes out at once.
            let m = pd.next_msg.take();
            match m {
                Some(m) => {
                    if crate::message::wf_message(&m) {
                        self.send_frame(&mut pd, m);
                    }
                },
                None => {},
            }
            self.put_back(i, pd, fops);
            return ;
        }
        if pd.awaiting {
            let resend = pd.tick_await();
            if resend {
                // Resend the identical frame: the reply may have been
                // lost rather than the request.
                let ch = pd.channel_idx;
                if ch < self.txb.len() {
                    let mut txbuf = self.txb.remove(ch);
                    if txbuf.len() <= 8192 && pd.last_frame.len() <= 8192 - txbuf.len() {
                        let lf = pd.last_frame.clone();
                        push_bytes(&mut txbuf, lf.as_slice());
                    }
                    self.txb.insert(ch, txbuf);
                }
            }
            self.put_back(i, pd, fops);
            return ;
        }
        match pd.state {
            CpState::Error => {
                // Terminal for this PD.
            },
            CpState::Offline => {
                if pd.backoff_ticks > 0 {
                    pd.backoff_ticks = pd.backoff_ticks - 1;
                } else {
                    // Contact restarts from the identity handshake.
                    pd.state = CpState::IdHandshake;
                    self.send_frame(&mut pd, Message::ReqId);
                }
            },
            CpState::IdHandshake => {
                self.send_frame(&mut pd, Message::ReqId);
            },
            CpState::CapabilitiesQuery => {
                self.send_frame(&mut pd, Message::ReqCap);
            },
            CpState::SecureHandshake => {
                match pd.next_msg.take() {
                    Some(m) => {
                        if crate::message::wf_message(&m) {
                            self.send_frame(&mut pd, m);
                        }
                    },
                    None => {
                        let nonce: [u8; 8] = rand::random();
                        let nv = pd.sc.cp_begin(nonce);
                        let m = Message::Chlng(nv);
                        proof {
                            assert(crate::message::spec_wf_message(m@));
                        }
                        self.send_frame(&mut pd, m);
                    },
                }
            },
            CpState::Polling | CpState::CommandInFlight => {
                let m = Self::decide_poll(&mut pd, &mut fops);
                self.send_frame(&mut pd, m);
            },
        }
        proof {
            assert(spec_drive_disj(old(self).pds@[i as int], pd));
        }
        self.put_back(i, pd, fops);
    }

    /// Decide the steady-state frame for a PD: the next file fragment if
    /// a transfer is running, the oldest queued command otherwise, or a
    /// plain poll.
    fn decide_poll(pd: &mut CpPd, fops: &mut Option<F>) -> (m: Message)
        requires
            old(pd).spec_wf(),
        ensures
            final(pd).spec_wf(),
            final(pd).awaiting == old(pd).awaiting,
            final(pd).timeout_ticks == old(pd).timeout_ticks,
            final(pd).retries == old(pd).retries,
            final(pd).online == old(pd).online,
            final(pd).channel_idx == old(pd).channel_idx,
            final(pd).info == old(pd).info,
            final(pd).sc == old(pd).sc,
            final(pd).seq == old(pd).seq,
            crate::message::spec_wf_message(m@),
            // Nothing queued and no transfer running: a plain poll.
            (old(pd).ft.status != FtStatus::Transferring && old(pd).cmd_queue@.len() == 0) ==> m@
                == crate::message::MessageView::Poll,
    {
        if pd.ft.status == FtStatus::Transferring {
            // Flow control: at most the advertised fragment size.
            let remaining: u32 = pd.ft.size - pd.ft.offset;
            let mut want: usize = pd.ft.max_frag as usize;
            if want > FRAG_CAP {
                want = FRAG_CAP;
            }
            if (remaining as usize) < want {
                want = remaining as usize;
            }
            if want == 0 {
                // Nothing left: the PD's last status closes the loop;
                // poll meanwhile.
                return Message::Poll;
            }
            match fops {
                None => {
                    pd.ft.fail();
                    return Message::Poll;
                },
                Some(f) => {
                    match f.offset_read(want, pd.ft.offset as u64) {
                        Ok(data) => {
                            if data.len() == 0 {
                                pd.ft.fail();
                                close_fops(fops);
                                return Message::Poll;
                            }
                            pd.state = CpState::CommandInFlight;
                            return Message::FileData { offset: pd.ft.offset, data };
                        },
                        Err(_) => {
                            pd.ft.fail();
                            close_fops(fops);
                            return Message::Poll;
                        },
                    }
                },
            }
        }
        if pd.cmd_queue.len() > 0 {
            let cmd = pd.cmd_queue.remove(0);
            match cmd {
                OsdpCommand::FileTx(ftx) => {
                    match fops {
                        None => {
                            return Message::Poll;
                        },
                        Some(f) => {
                            match f.open(ftx.id, true) {
                                Ok(size) => {
                                    if size > 0x7fffffff {
                                        let _ = f.close();
                                        return Message::Poll;
                                    }
                                    pd.ft = FileTransferSession::open(
                                        ftx.id,
                                        size as u32,
                                        FRAG_CAP as u16,
                                    );
                                    pd.state = CpState::CommandInFlight;
                                    return Message::FileStart { id: ftx.id, size: size as u32 };
                                },
                                Err(_) => {
                                    return Message::Poll;
                                },
                            }
                        },
                    }
                },
                cmd => {
                    if wf_command(&cmd) {
                        pd.state = CpState::CommandInFlight;
                        return Message::Cmd(cmd);
                    }
                    return Message::Poll;
                },
            }
        }
        pd.state = CpState::Polling;
        Message::Poll
    }

    /// Frame, protect and queue one message for a PD, advancing the
    /// sequence number and arming the reply timeout.
    fn send_frame(&mut self, pd: &mut CpPd, m: Message)
        requires
            old(pd).spec_wf(),
            crate::message::spec_wf_message(m@),
        ensures
            final(pd).spec_wf(),
            final(pd).channel_idx == old(pd).channel_idx,
            final(pd).info == old(pd).info,
            (final(pd).retries == 0 && final(pd).timeout_ticks == 0) || spec_tm(*final(pd))
                == spec_tm(*old(pd)),
            final(self).txb@.len() == old(self).txb@.len(),
            *final(self) == (ControlPanel { txb: final(self).txb, ..*old(self) }),
            // A plain frame carries exactly the encoded message under the
            // advanced sequence number; it is stored for resends and
            // queued on the PD's channel (dropped only if the transmit
            // buffer is saturated).
            old(pd).sc.status != ScStatus::Active ==> ({
                let h = PacketHeader {
                    address: old(pd).info.address as u8,
                    is_reply: false,
                    seq: spec_next_seq(old(pd).seq),
                    use_crc: true,
                    sc_active: false,
                };
                let frame = crate::codec::spec_encode_packet(
                    h,
                    crate::message::spec_encode_message(m@),
                );
                &&& final(pd).awaiting
                &&& final(pd).seq == spec_next_seq(old(pd).seq)
                &&& final(pd).last_frame@ == frame
                &&& final(pd).sc == old(pd).sc
                &&& (old(pd).channel_idx < old(self).txb@.len() ==> (final(self).txb@[old(
                    pd,
                ).channel_idx as int]@ == old(self).txb@[old(pd).channel_idx as int]@ + frame
                    || final(self).txb@[old(pd).channel_idx as int]@ == old(self).txb@[old(
                    pd,
                ).channel_idx as int]@))
            }),
            // A protected frame carries the secure envelope of the
            // encoded message under the session keys and send counter.
            old(pd).sc.status == ScStatus::Active && old(pd).sc.send_counter < 0xfffffffe ==> ({
                let h = PacketHeader {
                    address: old(pd).info.address as u8,
                    is_reply: false,
                    seq: spec_next_seq(old(pd).seq),
                    use_crc: true,
                    sc_active: true,
                };
                let frame = crate::codec::spec_encode_packet(h, crate::sc::spec_wrap(
                    old(pd).sc.s_enc@,
                    old(pd).sc.s_mac@,
                    old(pd).sc.cp_nonce@,
                    old(pd).sc.send_counter,
                    h,
                    crate::message::spec_encode_message(m@),
                ));
                &&& final(pd).awaiting
                &&& final(pd).seq == spec_next_seq(old(pd).seq)
                &&& final(pd).last_frame@ == frame
                &&& (old(pd).channel_idx < old(self).txb@.len() ==> (final(self).txb@[old(
                    pd,
                ).channel_idx as int]@ == old(self).txb@[old(pd).channel_idx as int]@ + frame
                    || final(self).txb@[old(pd).channel_idx as int]@ == old(self).txb@[old(
                    pd,
                ).channel_idx as int]@))
            }),
    {
        let mut payload = encode_message(&m);
        proof {
            lemma_encode_message_len(m@);
        }
        let wrap = match pd.sc.status {
            ScStatus::Active => true,
            _ => false,
        };
        let seq: u8 = if pd.seq >= 15 {
            1
        } else {
            pd.seq + 1
        };
        pd.seq = seq;
        let h = PacketHeader {
            address: pd.info.address as u8,
            is_reply: false,
            seq,
            use_crc: true,
            sc_active: wrap,
        };
        if wrap {
            if pd.sc.send_counter >= 0xfffffffe {
                pd.sc.invalidate();
                pd.state = CpState::SecureHandshake;
                return ;
            }
            payload = pd.sc.wrap_secure(&h, payload.as_slice());
        }
        let frame = encode_packet(&h, payload.as_slice());
        pd.last_frame = frame.clone();
        pd.awaiting = true;
        pd.timeout_ticks = 0;
        pd.retries = 0;
        let ch = pd.channel_idx;
        if ch < self.txb.len() {
            let mut txbuf = self.txb.remove(ch);
            if txbuf.len() <= 8192 && frame.len() <= 8192 - txbuf.len() {
                push_bytes(&mut txbuf, frame.as_slice());
            }
            self.txb.insert(ch, txbuf);
        }
    }
}

/// Handle a failed secure-channel handshake for a PD: enforced secure
/// configurations refuse the PD for good; others fall back to plain
/// polling.
fn sc_failed(pd: &mut CpPd)
    requires
        old(pd).spec_wf(),
    ensures
        final(pd).spec_wf(),
        final(pd).awaiting == old(pd).awaiting,
        final(pd).timeout_ticks == old(pd).timeout_ticks,
        final(pd).retries == old(pd).retries,
        final(pd).channel_idx == old(pd).channel_idx,
        final(pd).info == old(pd).info,
{
    pd.sc.invalidate();
    pd.next_msg = None;
    if pd.info.flags.enforce_secure {
        pd.state = CpState::Error;
        pd.online = false;
    } else {
        pd.state = CpState::Polling;
    }
}

/// Release a collaborator's file handle, if one is registered.
fn close_fops<F: OsdpFileOps>(fops: &mut Option<F>)
{
    match fops {
        None => {},
        Some(f) => {
            let _ = f.close();
        },
    }
}

} // verus!
