//! The modem supervisor: command handling, S-registers, connection
//! state, escape-sequence detection and the host-side byte buffers.
//!
//! The supervisor is pure control logic: every transition is given by
//! `modem_step` (for AT commands) and `data_step` (for data-mode
//! bytes). Timestamps come in as plain milliseconds from the caller;
//! the audio chain exchanges bytes through the TX/RX buffers.

use vstd::prelude::*;
use vstd::string::*;
use crate::at_commands::{ATCommand, ATCommandView, ATCommandParser, ATResponse, ATResponseView,
    ModemState, resps_view, trim_spec};
use crate::text::{is_digit, digits_value, dec_digits, dec3_digits, format_dec3, push_u32_dec,
    parse_u32_digits};

verus! {

/// Modulation family selected by the connection speed.
#[derive(Debug, Clone, Copy, PartialEq)]
pub enum ModemMode {
    Bell103,
    V22,
    V22bis,
    Bell212A,
}

/// Mathematical image of the supervisor state.
pub struct ModemView {
    pub state: ModemState,
    pub regs: Seq<u8>,
    pub mode: ModemMode,
    pub speed: u32,
    pub connected: bool,
    pub escape_time: Option<u64>,
    pub plus_count: u8,
    pub tx: Seq<u8>,
    pub rx: Seq<u8>,
    pub parser_buf: Seq<char>,
}

/// Supervisor consistency: a full register bank and an escape counter
/// that never passes two.
pub open spec fn view_wf(m: ModemView) -> bool {
    m.regs.len() == 256 && m.plus_count <= 2
}

/// Default S-register bank: S3=13 (CR), S4=10 (LF), S5=8 (BS), S12=50
/// (escape guard in 20 ms units), all others zero.
pub open spec fn default_regs() -> Seq<u8> {
    Seq::new(
        256,
        |i: int|
            if i == 3 {
                13u8
            } else if i == 4 {
                10u8
            } else if i == 5 {
                8u8
            } else if i == 12 {
                50u8
            } else {
                0u8
            },
    )
}

/// Speed selection: 300, 1200 and 2400 bps pick their mode; any other
/// speed keeps the current mode.
pub open spec fn mode_for_speed(speed: u32, cur: ModemMode) -> ModemMode {
    if speed == 300 {
        ModemMode::Bell103
    } else if speed == 1200 {
        ModemMode::V22
    } else if speed == 2400 {
        ModemMode::V22bis
    } else {
        cur
    }
}

/// Hanging up: back to command state, buffers and escape tracking
/// cleared.
pub open spec fn hangup_spec(m: ModemView) -> ModemView {
    ModemView {
        state: ModemState::Command,
        connected: false,
        tx: Seq::empty(),
        rx: Seq::empty(),
        plus_count: 0,
        escape_time: None,
        ..m
    }
}

/// Reset: hang up and restore the default register bank and a fresh
/// parser.
pub open spec fn reset_spec(m: ModemView) -> ModemView {
    ModemView { regs: default_regs(), parser_buf: Seq::empty(), ..hangup_spec(m) }
}

/// The numeric argument of an info query: its trimmed decimal value,
/// zero for anything non-numeric.
pub open spec fn info_arg_value(s: Seq<char>) -> u32 {
    let t = trim_spec(s);
    if t.len() > 0 && (forall|i: int| 0 <= i < t.len() ==> is_digit(#[trigger] t[i]))
        && digits_value(t) <= u32::MAX {
        digits_value(t) as u32
    } else {
        0
    }
}

/// The info text for query `n`.
pub open spec fn info_text(n: u32) -> Seq<char> {
    if n == 0 {
        "300"@
    } else if n == 1 || n == 2 {
        "OK"@
    } else if n == 3 {
        "HSF Softmodem v1.0"@
    } else if n == 4 {
        "Rust Implementation"@
    } else {
        "Unknown info type "@ + dec_digits(n as nat)
    }
}

/// One supervisor step on an AT command: the successor state and the
/// responses sent to the host.
pub open spec fn modem_step(m: ModemView, c: ATCommandView) -> (ModemView, Seq<ATResponseView>) {
    match c {
        ATCommandView::Attention => (m, seq![ATResponseView::Okay]),
        ATCommandView::Dial(_) => (
            ModemView { state: ModemState::Connected, connected: true, ..m },
            seq![ATResponseView::Connect(m.speed)],
        ),
        ATCommandView::Answer => (
            ModemView { state: ModemState::Connected, connected: true, ..m },
            seq![ATResponseView::Connect(m.speed)],
        ),
        ATCommandView::Hangup => (hangup_spec(m), seq![ATResponseView::Okay]),
        ATCommandView::SetEcho(_) => (m, seq![ATResponseView::Okay]),
        ATCommandView::SetVerbose(_) => (m, seq![ATResponseView::Okay]),
        ATCommandView::SetSpeaker(_) => (m, seq![ATResponseView::Okay]),
        ATCommandView::SelectSpeed(s) => (
            ModemView { speed: s, mode: mode_for_speed(s, m.mode), ..m },
            seq![ATResponseView::Okay],
        ),
        ATCommandView::Info(arg) => (
            m,
            seq![ATResponseView::Text(info_text(info_arg_value(arg)))],
        ),
        ATCommandView::GoOnline => (
            ModemView { state: ModemState::Connected, ..m },
            seq![ATResponseView::Okay],
        ),
        ATCommandView::Reset => (reset_spec(m), seq![ATResponseView::Okay]),
        ATCommandView::SetRegister(r, v) => (
            ModemView { regs: m.regs.update(r as int, v), ..m },
            seq![ATResponseView::Okay],
        ),
        ATCommandView::QueryRegister(r) => (
            m,
            seq![ATResponseView::Text(dec3_digits(m.regs[r as int] as int))],
        ),
        ATCommandView::Unknown(_) => (m, seq![ATResponseView::Error]),
    }
}

/// The escape guard time in milliseconds: S12 in 20 ms units.
pub open spec fn guard_time_ms(m: ModemView) -> int {
    m.regs[12] * 20
}

/// One supervisor step on a data-mode byte at time `now` (in
/// milliseconds): the successor state, and responses only when an
/// escape was recognized.
///
/// Three consecutive `'+'` bytes leave data mode exactly when the
/// third arrives at least the guard time after the first; a faster
/// `'+++'` only resets the tracker. Any other byte resets the tracker
/// and is queued for transmission.
pub open spec fn data_step(m: ModemView, byte: u8, now: u64) -> (
    ModemView,
    Option<Seq<ATResponseView>>,
) {
    if byte == 43 {
        if m.plus_count == 0 {
            (ModemView { plus_count: 1, escape_time: Some(now), ..m }, None)
        } else if m.plus_count == 2 {
            if m.escape_time matches Some(t) && t + guard_time_ms(m) <= now {
                (hangup_spec(m), Some(seq![ATResponseView::Okay]))
            } else {
                (ModemView { plus_count: 0, escape_time: None, ..m }, None)
            }
        } else {
            (ModemView { plus_count: 2, ..m }, None)
        }
    } else {
        (ModemView { plus_count: 0, escape_time: None, tx: m.tx.push(byte), ..m }, None)
    }
}

/// Virtual modem supervisor: AT control plane and host byte buffers.
pub struct VirtualModem {
    state: ModemState,
    pub parser: ATCommandParser,
    s_registers: Vec<u8>,
    current_mode: ModemMode,
    connection_speed: u32,
    connected: bool,
    escape_time_ms: Option<u64>,
    plus_count: u8,
    tx_buffer: Vec<u8>,
    rx_buffer: Vec<u8>,
}

impl View for VirtualModem {
    type V = ModemView;

    closed spec fn view(&self) -> ModemView {
        ModemView {
            state: self.state,
            regs: self.s_registers@,
            mode: self.current_mode,
            speed: self.connection_speed,
            connected: self.connected,
            escape_time: self.escape_time_ms,
            plus_count: self.plus_count,
            tx: self.tx_buffer@,
            rx: self.rx_buffer@,
            parser_buf: self.parser@,
        }
    }
}

/// The default register bank as a vector.
fn default_s_registers() -> (r: Vec<u8>)
    ensures
        r@ == default_regs(),
{
    let mut regs: Vec<u8> = Vec::new();
    let mut i: usize = 0;
    while i < 256
        invariant
            i <= 256,
            regs@.len() == i,
            forall|j: int| 0 <= j < i ==> regs@[j] == 0u8,
        decreases 256 - i,
    {
        regs.push(0);
        i = i + 1;
    }
    regs.set(3, 13);
    regs.set(4, 10);
    regs.set(5, 8);
    regs.set(12, 50);
    proof {
        assert(regs@ =~= default_regs());
    }
    regs
}

impl VirtualModem {
    /// Supervisor consistency; see `view_wf`.
    pub open spec fn wf(&self) -> bool {
        view_wf(self@)
    }

    /// The initial supervisor: command state, default registers,
    /// Bell 103 at 300 bps, empty buffers.
    pub fn new() -> (r: Result<Self, String>)
        ensures
            match r {
                Ok(m) => {
                    &&& m.wf()
                    &&& m@.state == ModemState::Command
                    &&& m@.regs == default_regs()
                    &&& m@.mode == ModemMode::Bell103
                    &&& m@.speed == 300
                    &&& !m@.connected
                    &&& m@.escape_time is None
                    &&& m@.plus_count == 0
                    &&& m@.tx == Seq::<u8>::empty()
                    &&& m@.rx == Seq::<u8>::empty()
                    &&& m@.parser_buf == Seq::<char>::empty()
                },
                Err(_) => false,
            },
    {
        Ok(
            VirtualModem {
                state: ModemState::Command,
                parser: ATCommandParser::new(),
                s_registers: default_s_registers(),
                current_mode: ModemMode::Bell103,
                connection_speed: 300,
                connected: false,
                escape_time_ms: None,
                plus_count: 0,
                tx_buffer: Vec::new(),
                rx_buffer: Vec::new(),
            },
        )
    }

    pub fn get_state(&self) -> (s: ModemState)
        ensures
            s == self@.state,
    {
        self.state
    }

    /// Current connection speed in bits per second.
    pub fn connection_speed(&self) -> (s: u32)
        ensures
            s == self@.speed,
    {
        self.connection_speed
    }

    /// Current modulation mode.
    pub fn current_mode(&self) -> (m: ModemMode)
        ensures
            m == self@.mode,
    {
        self.current_mode
    }

    /// Execute one parsed AT command; the behaviour is `modem_step`.
    pub fn process_command(&mut self, command: ATCommand) -> (r: Vec<ATResponse>)
        requires
            old(self).wf(),
        ensures
            final(self).wf(),
            final(self)@ == modem_step(old(self)@, command@).0,
            resps_view(r@) == modem_step(old(self)@, command@).1,
    {
        let mut responses: Vec<ATResponse> = Vec::new();
        match command {
            ATCommand::Attention => {
                responses.push(ATResponse::Okay);
            },
            ATCommand::Dial(_number) => {
                self.state = ModemState::Connecting;
                self.connected = true;
                self.state = ModemState::Connected;
                responses.push(ATResponse::Connect(self.connection_speed));
            },
            ATCommand::Answer => {
                self.state = ModemState::Connected;
                self.connected = true;
                responses.push(ATResponse::Connect(self.connection_speed));
            },
            ATCommand::Hangup => {
                self.hangup();
                responses.push(ATResponse::Okay);
            },
            ATCommand::SetEcho(_on) => {
                responses.push(ATResponse::Okay);
            },
            ATCommand::SetVerbose(_on) => {
                responses.push(ATResponse::Okay);
            },
            ATCommand::SetSpeaker(_on) => {
                responses.push(ATResponse::Okay);
            },
            ATCommand::SelectSpeed(speed) => {
                self.reconfigure_for_speed(speed);
                responses.push(ATResponse::Okay);
            },
            ATCommand::Info(arg) => {
                let n = Self::info_arg(&arg);
                let text = Self::info_string(n);
                responses.push(ATResponse::Text(text));
            },
            ATCommand::GoOnline => {
                self.state = ModemState::Connected;
                responses.push(ATResponse::Okay);
            },
            ATCommand::Reset => {
                self.reset();
                responses.push(ATResponse::Okay);
            },
            ATCommand::SetRegister(r, v) => {
                self.s_registers.set(r as usize, v);
                responses.push(ATResponse::Okay);
            },
            ATCommand::QueryRegister(r) => {
                let value = self.s_registers[r as usize];
                responses.push(ATResponse::Text(format_dec3(value)));
            },
            ATCommand::Unknown(_s) => {
                responses.push(ATResponse::Error);
            },
        }
        proof {
            assert(resps_view(responses@) =~= modem_step(old(self)@, command@).1);
        }
        responses
    }

    /// Process one byte while in data mode; the behaviour is
    /// `data_step`. `now_ms` is the caller's clock, in milliseconds.
    pub fn process_data_char(&mut self, byte: u8, now_ms: u64) -> (r: Option<Vec<ATResponse>>)
        requires
            old(self).wf(),
        ensures
            final(self).wf(),
            final(self)@ == data_step(old(self)@, byte, now_ms).0,
            match r {
                Option::None => data_step(old(self)@, byte, now_ms).1 is None,
                Option::Some(v) => data_step(old(self)@, byte, now_ms).1 == Some(resps_view(v@)),
            },
    {
        if byte == 43 {
            if self.plus_count == 0 {
                self.plus_count = 1;
                self.escape_time_ms = Some(now_ms);
                None
            } else if self.plus_count == 2 {
                let guard: u64 = (self.s_registers[12] as u64) * 20;
                let fire = match self.escape_time_ms {
                    Some(t) => t <= now_ms && now_ms - t >= guard,
                    None => false,
                };
                if fire {
                    self.hangup();
                    let mut r: Vec<ATResponse> = Vec::new();
                    r.push(ATResponse::Okay);
                    proof {
                        assert(resps_view(r@) =~= seq![ATResponseView::Okay]);
                    }
                    Some(r)
                } else {
                    self.plus_count = 0;
                    self.escape_time_ms = None;
                    None
                }
            } else {
                self.plus_count = 2;
                None
            }
        } else {
            self.plus_count = 0;
            self.escape_time_ms = None;
            self.tx_buffer.push(byte);
            None
        }
    }

    /// Hand out the queued transmit bytes (the modulator's input) and
    /// clear the queue.
    pub fn take_tx_buffer(&mut self) -> (r: Vec<u8>)
        ensures
            r@ == old(self)@.tx,
            final(self)@ == (ModemView { tx: Seq::<u8>::empty(), ..old(self)@ }),
    {
        let mut taken: Vec<u8> = Vec::new();
        core::mem::swap(&mut taken, &mut self.tx_buffer);
        taken
    }

    /// Append freshly demodulated bytes for the host.
    pub fn push_rx_bytes(&mut self, bytes: &[u8])
        ensures
            final(self)@ == (ModemView { rx: old(self)@.rx + bytes@, ..old(self)@ }),
    {
        let mut i: usize = 0;
        while i < bytes.len()
            invariant
                i <= bytes@.len(),
                self@ == (ModemView { rx: old(self)@.rx + bytes@.subrange(0, i as int), ..old(
                    self,
                )@ }),
            decreases bytes@.len() - i,
        {
            self.rx_buffer.push(bytes[i]);
            proof {
                assert(self@.rx =~= old(self)@.rx + bytes@.subrange(0, i + 1));
            }
            i = i + 1;
        }
        proof {
            assert(self@.rx =~= old(self)@.rx + bytes@);
        }
    }

    /// Hand out the received bytes for the host and clear the buffer.
    pub fn take_rx_buffer(&mut self) -> (r: Vec<u8>)
        ensures
            r@ == old(self)@.rx,
            final(self)@ == (ModemView { rx: Seq::<u8>::empty(), ..old(self)@ }),
    {
        let mut taken: Vec<u8> = Vec::new();
        core::mem::swap(&mut taken, &mut self.rx_buffer);
        taken
    }

    /// Drop the line: the `hangup_spec` transition.
    pub fn hangup(&mut self)
        ensures
            final(self)@ == hangup_spec(old(self)@),
    {
        self.connected = false;
        self.state = ModemState::Command;
        self.tx_buffer.clear();
        self.rx_buffer.clear();
        self.plus_count = 0;
        self.escape_time_ms = None;
    }

    /// Full reset: the `reset_spec` transition.
    pub fn reset(&mut self)
        ensures
            final(self)@ == reset_spec(old(self)@),
    {
        self.hangup();
        self.s_registers = default_s_registers();
        self.parser.reset();
    }

    /// Select a connection speed, switching mode for the known rates.
    fn reconfigure_for_speed(&mut self, speed: u32)
        ensures
            final(self)@ == (ModemView {
                speed: speed,
                mode: mode_for_speed(speed, old(self)@.mode),
                ..old(self)@
            }),
    {
        self.connection_speed = speed;
        if speed == 300 {
            self.current_mode = ModemMode::Bell103;
        } else if speed == 1200 {
            self.current_mode = ModemMode::V22;
        } else if speed == 2400 {
            self.current_mode = ModemMode::V22bis;
        }
    }

    /// The trimmed numeric argument of an info query, zero otherwise.
    fn info_arg(arg: &String) -> (n: u32)
        ensures
            n == info_arg_value(arg@),
    {
        let chars = crate::at_commands::str_to_chars(arg.as_str());
        let t = crate::at_commands::trim_vec(&chars);
        let mut all_digits = true;
        let mut i: usize = 0;
        while i < t.len()
            invariant
                i <= t@.len(),
                all_digits == (forall|j: int| 0 <= j < i ==> is_digit(#[trigger] t@[j])),
            decreases t@.len() - i,
        {
            let c = t[i];
            if !(c >= '0' && c <= '9') {
                all_digits = false;
            }
            i = i + 1;
        }
        if t.len() > 0 && all_digits {
            match parse_u32_digits(&t) {
                Some(v) => v,
                None => 0,
            }
        } else {
            0
        }
    }

    /// The info text for query `n`.
    fn info_string(n: u32) -> (s: String)
        ensures
            s@ == info_text(n),
    {
        if n == 0 {
            String::from_str("300")
        } else if n == 1 || n == 2 {
            String::from_str("OK")
        } else if n == 3 {
            String::from_str("HSF Softmodem v1.0")
        } else if n == 4 {
            String::from_str("Rust Implementation")
        } else {
            let mut s = String::from_str("Unknown info type ");
            push_u32_dec(&mut s, n);
            s
        }
    }
}

/// Setting an S-register and then querying it answers with exactly the
/// three-digit zero-padded decimal of the stored value, for every
/// register and every value.
pub proof fn lemma_s_register_round_trip(m: ModemView, r: u8, v: u8)
    requires
        view_wf(m),
    ensures
        ({
            let m1 = modem_step(m, ATCommandView::SetRegister(r, v)).0;
            modem_step(m1, ATCommandView::QueryRegister(r)).1 == seq![
                ATResponseView::Text(dec3_digits(v as int)),
            ]
        }),
{
    let m1 = modem_step(m, ATCommandView::SetRegister(r, v)).0;
    assert(m1.regs[r as int] == v);
    assert(modem_step(m1, ATCommandView::QueryRegister(r)).1 =~= seq![
        ATResponseView::Text(dec3_digits(v as int)),
    ]);
}

} // verus!
