//! Hayes-style AT command parsing and response rendering.
//!
//! A command line is `AT` (case-insensitive) followed by a compound
//! body: one-letter commands (`Z`, `A`, `H`, `O`), flag commands
//! (`E`/`V`/`M` with optional `0`/`1`), `D` dial strings consuming the
//! rest of the line, `I` info queries, `S` register accesses
//! (`S<n>=<v>`, `S<n>?`) and `+`-extended tokens (`+MS=<speed>`). The
//! parser's behaviour is pinned down by the spec functions here:
//! `spec_parse_line` is the reference grammar.

use vstd::prelude::*;
use vstd::string::*;
use crate::text::{is_digit, digits_value, dec_digits, upper_char, to_upper, push_char,
    chars_to_string, parse_u8_digits, parse_u32_digits, digit_to_char};

verus! {

/// Hayes AT command responses.
#[derive(Debug, Clone, PartialEq)]
pub enum ATResponse {
    Okay,
    Error,
    Connect(u32),
    Ring,
    NoCarrier,
    NoDialtone,
    Busy,
    NoAnswer,
    Text(String),
}

/// Mathematical image of an `ATResponse`: text as a character sequence.
pub enum ATResponseView {
    Okay,
    Error,
    Connect(u32),
    Ring,
    NoCarrier,
    NoDialtone,
    Busy,
    NoAnswer,
    Text(Seq<char>),
}

impl View for ATResponse {
    type V = ATResponseView;

    open spec fn view(&self) -> ATResponseView {
        match self {
            ATResponse::Okay => ATResponseView::Okay,
            ATResponse::Error => ATResponseView::Error,
            ATResponse::Connect(b) => ATResponseView::Connect(*b),
            ATResponse::Ring => ATResponseView::Ring,
            ATResponse::NoCarrier => ATResponseView::NoCarrier,
            ATResponse::NoDialtone => ATResponseView::NoDialtone,
            ATResponse::Busy => ATResponseView::Busy,
            ATResponse::NoAnswer => ATResponseView::NoAnswer,
            ATResponse::Text(s) => ATResponseView::Text(s@),
        }
    }
}

/// The full modem-style line for a response, CRLF-terminated.
pub open spec fn resp_chars(r: ATResponseView) -> Seq<char> {
    match r {
        ATResponseView::Okay => "OK\r\n"@,
        ATResponseView::Error => "ERROR\r\n"@,
        ATResponseView::Connect(baud) => "CONNECT "@ + dec_digits(baud as nat) + "\r\n"@,
        ATResponseView::Ring => "RING\r\n"@,
        ATResponseView::NoCarrier => "NO CARRIER\r\n"@,
        ATResponseView::NoDialtone => "NO DIALTONE\r\n"@,
        ATResponseView::Busy => "BUSY\r\n"@,
        ATResponseView::NoAnswer => "NO ANSWER\r\n"@,
        ATResponseView::Text(s) => s + "\r\n"@,
    }
}

impl ATResponse {
    /// Render the response as a full modem-style line.
    pub fn to_string(&self) -> (r: String)
        ensures
            r@ == resp_chars(self@),
    {
        match self {
            ATResponse::Okay => String::from_str("OK\r\n"),
            ATResponse::Error => String::from_str("ERROR\r\n"),
            ATResponse::Connect(baud) => {
                let mut s = String::from_str("CONNECT ");
                crate::text::push_u32_dec(&mut s, *baud);
                s.append("\r\n");
                s
            },
            ATResponse::Ring => String::from_str("RING\r\n"),
            ATResponse::NoCarrier => String::from_str("NO CARRIER\r\n"),
            ATResponse::NoDialtone => String::from_str("NO DIALTONE\r\n"),
            ATResponse::Busy => String::from_str("BUSY\r\n"),
            ATResponse::NoAnswer => String::from_str("NO ANSWER\r\n"),
            ATResponse::Text(t) => {
                let mut s = String::new();
                s.append(t.as_str());
                s.append("\r\n");
                s
            },
        }
    }
}

/// The canonical command-line text of a command.
pub open spec fn command_chars(c: ATCommandView) -> Seq<char> {
    match c {
        ATCommandView::Attention => "AT"@,
        ATCommandView::Dial(num) => "ATD"@ + num,
        ATCommandView::Answer => "ATA"@,
        ATCommandView::Hangup => "ATH"@,
        ATCommandView::SetEcho(v) => "ATE"@ + seq![if v { '1' } else { '0' }],
        ATCommandView::SetVerbose(v) => "ATV"@ + seq![if v { '1' } else { '0' }],
        ATCommandView::SetSpeaker(v) => "ATM"@ + seq![if v { '1' } else { '0' }],
        ATCommandView::SelectSpeed(sp) => "AT+MS="@ + dec_digits(sp as nat),
        ATCommandView::Info(i) => "ATI"@ + i,
        ATCommandView::GoOnline => "ATO"@,
        ATCommandView::Reset => "ATZ"@,
        ATCommandView::SetRegister(r, v) => "ATS"@ + dec_digits(r as nat) + seq!['='] + dec_digits(
            v as nat,
        ),
        ATCommandView::QueryRegister(r) => "ATS"@ + dec_digits(r as nat) + seq!['?'],
        ATCommandView::Unknown(u) => "AT"@ + u,
    }
}

/// Logical modem state as seen by the control layer.
#[derive(Debug, Clone, Copy, PartialEq, Eq)]
pub enum ModemState {
    Command,
    Dialing,
    Ringing,
    Connecting,
    Connected,
    OnHook,
    OffHook,
}

/// Parsed Hayes AT command.
#[derive(Debug, Clone, PartialEq)]
pub enum ATCommand {
    Attention,
    Dial(String),
    Answer,
    Hangup,
    SetEcho(bool),
    SetVerbose(bool),
    SetSpeaker(bool),
    SelectSpeed(u32),
    Info(String),
    GoOnline,
    Reset,
    SetRegister(u8, u8),
    QueryRegister(u8),
    Unknown(String),
}

/// Mathematical image of an `ATCommand`: strings as character
/// sequences.
pub enum ATCommandView {
    Attention,
    Dial(Seq<char>),
    Answer,
    Hangup,
    SetEcho(bool),
    SetVerbose(bool),
    SetSpeaker(bool),
    SelectSpeed(u32),
    Info(Seq<char>),
    GoOnline,
    Reset,
    SetRegister(u8, u8),
    QueryRegister(u8),
    Unknown(Seq<char>),
}

impl View for ATCommand {
    type V = ATCommandView;

    open spec fn view(&self) -> ATCommandView {
        match self {
            ATCommand::Attention => ATCommandView::Attention,
            ATCommand::Dial(s) => ATCommandView::Dial(s@),
            ATCommand::Answer => ATCommandView::Answer,
            ATCommand::Hangup => ATCommandView::Hangup,
            ATCommand::SetEcho(v) => ATCommandView::SetEcho(*v),
            ATCommand::SetVerbose(v) => ATCommandView::SetVerbose(*v),
            ATCommand::SetSpeaker(v) => ATCommandView::SetSpeaker(*v),
            ATCommand::SelectSpeed(v) => ATCommandView::SelectSpeed(*v),
            ATCommand::Info(s) => ATCommandView::Info(s@),
            ATCommand::GoOnline => ATCommandView::GoOnline,
            ATCommand::Reset => ATCommandView::Reset,
            ATCommand::SetRegister(r, v) => ATCommandView::SetRegister(*r, *v),
            ATCommand::QueryRegister(r) => ATCommandView::QueryRegister(*r),
            ATCommand::Unknown(s) => ATCommandView::Unknown(s@),
        }
    }
}

impl ATCommand {
    /// Render the command as the AT line that produces it.
    pub fn to_text(&self) -> (r: String)
        ensures
            r@ == command_chars(self@),
    {
        match self {
            ATCommand::Attention => String::from_str("AT"),
            ATCommand::Dial(num) => {
                let mut s = String::from_str("ATD");
                s.append(num.as_str());
                s
            },
            ATCommand::Answer => String::from_str("ATA"),
            ATCommand::Hangup => String::from_str("ATH"),
            ATCommand::SetEcho(v) => {
                let mut s = String::from_str("ATE");
                push_char(&mut s, if *v { '1' } else { '0' });
                proof {
                    assert(s@ =~= command_chars(self@));
                }
                s
            },
            ATCommand::SetVerbose(v) => {
                let mut s = String::from_str("ATV");
                push_char(&mut s, if *v { '1' } else { '0' });
                proof {
                    assert(s@ =~= command_chars(self@));
                }
                s
            },
            ATCommand::SetSpeaker(v) => {
                let mut s = String::from_str("ATM");
                push_char(&mut s, if *v { '1' } else { '0' });
                proof {
                    assert(s@ =~= command_chars(self@));
                }
                s
            },
            ATCommand::SelectSpeed(sp) => {
                let mut s = String::from_str("AT+MS=");
                crate::text::push_u32_dec(&mut s, *sp);
                s
            },
            ATCommand::Info(i) => {
                let mut s = String::from_str("ATI");
                s.append(i.as_str());
                s
            },
            ATCommand::GoOnline => String::from_str("ATO"),
            ATCommand::Reset => String::from_str("ATZ"),
            ATCommand::SetRegister(r, v) => {
                let mut s = String::from_str("ATS");
                crate::text::push_u32_dec(&mut s, *r as u32);
                push_char(&mut s, '=');
                crate::text::push_u32_dec(&mut s, *v as u32);
                proof {
                    assert(s@ =~= command_chars(self@));
                }
                s
            },
            ATCommand::QueryRegister(r) => {
                let mut s = String::from_str("ATS");
                crate::text::push_u32_dec(&mut s, *r as u32);
                push_char(&mut s, '?');
                proof {
                    assert(s@ =~= command_chars(self@));
                }
                s
            },
            ATCommand::Unknown(u) => {
                let mut s = String::from_str("AT");
                s.append(u.as_str());
                s
            },
        }
    }
}

/// View of a command vector, element by element.
pub open spec fn cmds_view(s: Seq<ATCommand>) -> Seq<ATCommandView> {
    Seq::new(s.len(), |i: int| s[i]@)
}

/// View of a response vector, element by element.
pub open spec fn resps_view(s: Seq<ATResponse>) -> Seq<ATResponseView> {
    Seq::new(s.len(), |i: int| s[i]@)
}

/// The whitespace that line trimming removes.
pub open spec fn is_space(c: char) -> bool {
    c == ' ' || c == '\t' || c == '\r' || c == '\n'
}

pub open spec fn trim_left(s: Seq<char>) -> Seq<char>
    decreases s.len(),
{
    if s.len() > 0 && is_space(s.first()) {
        trim_left(s.drop_first())
    } else {
        s
    }
}

pub open spec fn trim_right(s: Seq<char>) -> Seq<char>
    decreases s.len(),
{
    if s.len() > 0 && is_space(s.last()) {
        trim_right(s.drop_last())
    } else {
        s
    }
}

/// A line with leading and trailing whitespace removed.
pub open spec fn trim_spec(s: Seq<char>) -> Seq<char> {
    trim_right(trim_left(s))
}

/// Length of the run of decimal digits starting at `j`.
pub open spec fn digit_run(s: Seq<char>, j: int) -> nat
    decreases s.len() - j,
{
    if j < 0 || j >= s.len() || !is_digit(s[j]) {
        0
    } else {
        (1 + digit_run(s, j + 1)) as nat
    }
}

/// Length of the run up to (exclusive) the next `';'` starting at `j`.
pub open spec fn semi_run(s: Seq<char>, j: int) -> nat
    decreases s.len() - j,
{
    if j < 0 || j >= s.len() || s[j] == ';' {
        0
    } else {
        (1 + semi_run(s, j + 1)) as nat
    }
}

/// `e` capped at `len`.
pub open spec fn cap_at(e: int, len: int) -> int {
    if e <= len {
        e
    } else {
        len
    }
}

/// An optional `0`/`1` argument after a flag letter: absent means on.
pub open spec fn flag_arg(s: Seq<char>, j: int) -> (bool, int) {
    if 0 <= j < s.len() && s[j] == '0' {
        (false, j + 1)
    } else if 0 <= j < s.len() && s[j] == '1' {
        (true, j + 1)
    } else {
        (true, j)
    }
}

/// Parse a `+`-extended token (the token includes the leading `+`):
/// only `+MS=<speed>` is known.
pub open spec fn parse_extended_spec(t: Seq<char>) -> Option<ATCommandView> {
    if t.len() >= 4 && upper_char(t[0]) == '+' && upper_char(t[1]) == 'M' && upper_char(t[2])
        == 'S' && upper_char(t[3]) == '=' {
        let e = cap_at(4 + digit_run(t, 4) as int, t.len() as int);
        let ds = t.subrange(4, e);
        if ds.len() > 0 && digits_value(ds) <= u32::MAX {
            Some(ATCommandView::SelectSpeed(digits_value(ds) as u32))
        } else {
            None
        }
    } else {
        None
    }
}

/// The command sequence parsed from the body (everything after `AT`)
/// starting at position `i`: the reference grammar of the parser.
pub open spec fn parse_body(b: Seq<char>, i: int) -> Seq<ATCommandView>
    decreases b.len() - i,
{
    if i < 0 || i >= b.len() {
        Seq::empty()
    } else {
        let c = upper_char(b[i]);
        if c == 'Z' {
            seq![ATCommandView::Reset] + parse_body(b, i + 1)
        } else if c == 'A' {
            seq![ATCommandView::Answer] + parse_body(b, i + 1)
        } else if c == 'H' {
            seq![ATCommandView::Hangup] + parse_body(b, i + 1)
        } else if c == 'O' {
            seq![ATCommandView::GoOnline] + parse_body(b, i + 1)
        } else if c == 'E' {
            seq![ATCommandView::SetEcho(flag_arg(b, i + 1).0)] + parse_body(b, flag_arg(b, i + 1).1)
        } else if c == 'V' {
            seq![ATCommandView::SetVerbose(flag_arg(b, i + 1).0)] + parse_body(
                b,
                flag_arg(b, i + 1).1,
            )
        } else if c == 'M' {
            seq![ATCommandView::SetSpeaker(flag_arg(b, i + 1).0)] + parse_body(
                b,
                flag_arg(b, i + 1).1,
            )
        } else if c == 'D' {
            let j = if i + 1 < b.len() && (upper_char(b[i + 1]) == 'T' || upper_char(b[i + 1])
                == 'P') {
                i + 2
            } else {
                i + 1
            };
            seq![ATCommandView::Dial(b.subrange(j, b.len() as int))]
        } else if c == 'I' {
            let e = cap_at(i + 1 + digit_run(b, i + 1) as int, b.len() as int);
            let ds = if e == i + 1 {
                seq!['0']
            } else {
                b.subrange(i + 1, e)
            };
            seq![ATCommandView::Info(ds)] + parse_body(b, e)
        } else if c == 'S' {
            let e = cap_at(i + 1 + digit_run(b, i + 1) as int, b.len() as int);
            let ds = b.subrange(i + 1, e);
            if ds.len() == 0 || digits_value(ds) > 255 {
                seq![ATCommandView::Unknown(seq!['S'] + ds)] + parse_body(b, e)
            } else {
                let reg = digits_value(ds) as u8;
                if e < b.len() && b[e] == '=' {
                    let e2 = cap_at(e + 1 + digit_run(b, e + 1) as int, b.len() as int);
                    let vs = b.subrange(e + 1, e2);
                    if vs.len() == 0 || digits_value(vs) > 255 {
                        seq![
                            ATCommandView::Unknown(
                                seq!['S'] + dec_digits(reg as nat) + seq!['='] + vs,
                            ),
                        ] + parse_body(b, e2)
                    } else {
                        seq![ATCommandView::SetRegister(reg, digits_value(vs) as u8)] + parse_body(
                            b,
                            e2,
                        )
                    }
                } else if e < b.len() && b[e] == '?' {
                    seq![ATCommandView::QueryRegister(reg)] + parse_body(b, e + 1)
                } else {
                    seq![ATCommandView::Unknown(seq!['S'] + dec_digits(reg as nat))] + parse_body(
                        b,
                        e,
                    )
                }
            }
        } else if c == '+' {
            let e = cap_at(i + 1 + semi_run(b, i + 1) as int, b.len() as int);
            let token = b.subrange(i, e);
            match parse_extended_spec(token) {
                Some(cmd) => seq![cmd] + parse_body(b, e),
                None => seq![ATCommandView::Unknown(token)] + parse_body(b, e),
            }
        } else if c == ';' {
            parse_body(b, i + 1)
        } else {
            seq![ATCommandView::Unknown(seq![c] + b.subrange(i + 1, b.len() as int))]
        }
    }
}

/// The commands parsed from one full line: trim, require the `AT`
/// prefix, then walk the body; a bare `AT` is Attention, and a line
/// that yields nothing else is unknown.
pub open spec fn spec_parse_line(line: Seq<char>) -> Seq<ATCommandView> {
    let s = trim_spec(line);
    if s.len() == 0 {
        Seq::empty()
    } else if !(s.len() >= 2 && upper_char(s[0]) == 'A' && upper_char(s[1]) == 'T') {
        seq![ATCommandView::Unknown(s)]
    } else {
        let body = s.subrange(2, s.len() as int);
        if body.len() == 0 {
            seq![ATCommandView::Attention]
        } else {
            let cmds = parse_body(body, 0);
            if cmds.len() == 0 {
                seq![ATCommandView::Unknown(body)]
            } else {
                cmds
            }
        }
    }
}


proof fn lemma_cmds_view_cons(c: ATCommand, s: Seq<ATCommand>)
    ensures
        cmds_view(s.insert(0, c)) == seq![c@] + cmds_view(s),
{
    assert(cmds_view(s.insert(0, c)) =~= seq![c@] + cmds_view(s));
}

fn is_space_ch(c: char) -> (r: bool)
    ensures
        r == is_space(c),
{
    c == ' ' || c == '\t' || c == '\r' || c == '\n'
}

fn is_digit_ch(c: char) -> (r: bool)
    ensures
        r == is_digit(c),
{
    c >= '0' && c <= '9'
}

/// The characters of `v` between `from` and `to`.
fn copy_range(v: &Vec<char>, from: usize, to: usize) -> (r: Vec<char>)
    requires
        from <= to <= v@.len(),
    ensures
        r@ == v@.subrange(from as int, to as int),
{
    let mut r: Vec<char> = Vec::new();
    let mut i: usize = from;
    while i < to
        invariant
            from <= i <= to <= v@.len(),
            r@ == v@.subrange(from as int, i as int),
        decreases to - i,
    {
        r.push(v[i]);
        proof {
            assert(r@ =~= v@.subrange(from as int, i + 1));
        }
        i = i + 1;
    }
    r
}

fn push_all(dst: &mut Vec<char>, src: &Vec<char>)
    ensures
        final(dst)@ == old(dst)@ + src@,
{
    let mut i: usize = 0;
    while i < src.len()
        invariant
            i <= src@.len(),
            dst@ == old(dst)@ + src@.subrange(0, i as int),
        decreases src@.len() - i,
    {
        dst.push(src[i]);
        proof {
            assert(dst@ =~= old(dst)@ + src@.subrange(0, i + 1));
        }
        i = i + 1;
    }
    proof {
        assert(dst@ =~= old(dst)@ + src@);
    }
}

/// The decimal digits of `n` as characters.
fn dec_digits_vec(n: u32) -> (r: Vec<char>)
    ensures
        r@ == dec_digits(n as nat),
    decreases n,
{
    if n < 10 {
        let mut r: Vec<char> = Vec::new();
        r.push(digit_to_char(n));
        proof {
            assert(r@ =~= dec_digits(n as nat));
        }
        r
    } else {
        let mut r = dec_digits_vec(n / 10);
        r.push(digit_to_char(n % 10));
        proof {
            assert(r@ =~= dec_digits(n as nat));
        }
        r
    }
}

/// First position at or after `from` that does not hold a digit.
fn scan_digits(b: &Vec<char>, from: usize) -> (e: usize)
    requires
        from <= b@.len(),
    ensures
        from <= e <= b@.len(),
        e == cap_at(from + digit_run(b@, from as int) as int, b@.len() as int),
        forall|m: int| from <= m < e ==> is_digit(#[trigger] b@[m]),
{
    let mut j: usize = from;
    while j < b.len() && is_digit_ch(b[j])
        invariant
            from <= j <= b@.len(),
            digit_run(b@, from as int) == j - from + digit_run(b@, j as int),
            forall|m: int| from <= m < j ==> is_digit(#[trigger] b@[m]),
        decreases b@.len() - j,
    {
        j = j + 1;
    }
    proof {
        assert(digit_run(b@, j as int) == 0);
    }
    j
}

/// First position at or after `from` that holds a `';'`, or the end.
fn scan_semi(b: &Vec<char>, from: usize) -> (e: usize)
    requires
        from <= b@.len(),
    ensures
        from <= e <= b@.len(),
        e == cap_at(from + semi_run(b@, from as int) as int, b@.len() as int),
{
    let mut j: usize = from;
    while j < b.len() && b[j] != ';'
        invariant
            from <= j <= b@.len(),
            semi_run(b@, from as int) == j - from + semi_run(b@, j as int),
        decreases b@.len() - j,
    {
        j = j + 1;
    }
    proof {
        assert(semi_run(b@, j as int) == 0);
    }
    j
}

/// Trim whitespace from both ends.
pub(crate) fn trim_vec(v: &Vec<char>) -> (r: Vec<char>)
    ensures
        r@ == trim_spec(v@),
{
    let mut a: usize = 0;
    proof {
        assert(v@.skip(0) =~= v@);
    }
    while a < v.len() && is_space_ch(v[a])
        invariant
            a <= v@.len(),
            trim_left(v@) == trim_left(v@.skip(a as int)),
        decreases v@.len() - a,
    {
        proof {
            assert(v@.skip(a as int).drop_first() =~= v@.skip(a + 1));
        }
        a = a + 1;
    }
    if a == v.len() {
        proof {
            assert(v@.skip(a as int) =~= Seq::<char>::empty());
        }
        let r: Vec<char> = Vec::new();
        proof {
            assert(r@ =~= trim_spec(v@));
        }
        return r;
    }
    let ghost t = v@.skip(a as int);
    proof {
        assert(trim_left(v@) == t);
    }
    let mut b: usize = v.len();
    while b > a && is_space_ch(v[b - 1])
        invariant
            a < b <= v@.len() || b == a,
            a < v@.len(),
            !is_space(v@[a as int]),
            t == v@.skip(a as int),
            trim_right(t) == trim_right(v@.subrange(a as int, b as int)),
        decreases b,
    {
        proof {
            let u = v@.subrange(a as int, b as int);
            assert(u.last() == v@[b - 1]);
            assert(u.drop_last() =~= v@.subrange(a as int, b - 1));
        }
        b = b - 1;
    }
    proof {
        let u = v@.subrange(a as int, b as int);
        if b > a {
            assert(u.last() == v@[b - 1]);
        }
        assert(trim_right(u) == u);
    }
    copy_range(v, a, b)
}

/// Characters of a `&str`, in order.
pub(crate) fn str_to_chars(line: &str) -> (r: Vec<char>)
    ensures
        r@ == line@,
{
    let n = line.unicode_len();
    let mut r: Vec<char> = Vec::new();
    let mut i: usize = 0;
    while i < n
        invariant
            i <= n,
            n == line@.len(),
            r@ == line@.subrange(0, i as int),
        decreases n - i,
    {
        r.push(line.get_char(i));
        proof {
            assert(r@ =~= line@.subrange(0, i + 1));
        }
        i = i + 1;
    }
    proof {
        assert(r@ =~= line@);
    }
    r
}

/// Streaming AT command parser, fed one character at a time.
#[derive(Debug, Default)]
pub struct ATCommandParser {
    command_buffer: Vec<char>,
}

impl View for ATCommandParser {
    type V = Seq<char>;

    closed spec fn view(&self) -> Seq<char> {
        self.command_buffer@
    }
}

impl ATCommandParser {
    pub fn new() -> (r: Self)
        ensures
            r@ == Seq::<char>::empty(),
    {
        ATCommandParser { command_buffer: Vec::new() }
    }

    /// Forget any partially accumulated line.
    pub fn reset(&mut self)
        ensures
            final(self)@ == Seq::<char>::empty(),
    {
        self.command_buffer.clear();
    }

    /// Feed one character; a CR or LF terminates the line and yields
    /// the parsed commands (none for a blank line).
    pub fn process_char(&mut self, ch: char) -> (r: Option<Vec<ATCommand>>)
        ensures
            ch != '\r' && ch != '\n' ==> final(self)@ == old(self)@.push(ch) && r is None,
            ch == '\r' || ch == '\n' ==> final(self)@ == Seq::<char>::empty() && (match r {
                Option::None => trim_spec(old(self)@).len() == 0,
                Option::Some(v) => trim_spec(old(self)@).len() > 0 && cmds_view(v@)
                    == spec_parse_line(old(self)@),
            }),
    {
        if ch == '\r' || ch == '\n' {
            let line = copy_range(&self.command_buffer, 0, self.command_buffer.len());
            proof {
                assert(line@ =~= old(self)@);
            }
            self.command_buffer.clear();
            let trimmed = trim_vec(&line);
            if trimmed.len() == 0 {
                None
            } else {
                Some(Self::parse_line_vec(&line))
            }
        } else {
            self.command_buffer.push(ch);
            None
        }
    }

    /// Parse a full command line.
    pub fn parse_command_line(&mut self, line: &str) -> (r: Vec<ATCommand>)
        ensures
            cmds_view(r@) == spec_parse_line(line@),
            final(self)@ == old(self)@,
    {
        let chars = str_to_chars(line);
        Self::parse_line_vec(&chars)
    }

    /// Parse a line held as a character vector.
    fn parse_line_vec(chars: &Vec<char>) -> (r: Vec<ATCommand>)
        ensures
            cmds_view(r@) == spec_parse_line(chars@),
    {
        let t = trim_vec(chars);
        if t.len() == 0 {
            let r: Vec<ATCommand> = Vec::new();
            proof {
                assert(cmds_view(r@) =~= spec_parse_line(chars@));
            }
            return r;
        }
        let has_at = t.len() >= 2 && to_upper(t[0]) == 'A' && to_upper(t[1]) == 'T';
        if !has_at {
            let mut r: Vec<ATCommand> = Vec::new();
            r.push(ATCommand::Unknown(chars_to_string(&t)));
            proof {
                assert(cmds_view(r@) =~= spec_parse_line(chars@));
            }
            return r;
        }
        if t.len() == 2 {
            let mut r: Vec<ATCommand> = Vec::new();
            r.push(ATCommand::Attention);
            proof {
                assert(t@.subrange(2, t@.len() as int) =~= Seq::<char>::empty());
                assert(cmds_view(r@) =~= spec_parse_line(chars@));
            }
            return r;
        }
        let body = copy_range(&t, 2, t.len());
        let cmds = Self::parse_body_exec(&body, 0);
        if cmds.len() == 0 {
            let mut r: Vec<ATCommand> = Vec::new();
            r.push(ATCommand::Unknown(chars_to_string(&body)));
            proof {
                assert(cmds_view(r@) =~= spec_parse_line(chars@));
            }
            r
        } else {
            proof {
                assert(cmds_view(cmds@) == spec_parse_line(chars@));
            }
            cmds
        }
    }

    /// Walk the command body from position `i`, emitting one command
    /// per recognized prefix.
    fn parse_body_exec(b: &Vec<char>, i: usize) -> (r: Vec<ATCommand>)
        requires
            i <= b@.len(),
        ensures
            cmds_view(r@) == parse_body(b@, i as int),
        decreases b@.len() - i,
    {
        if i >= b.len() {
            let r: Vec<ATCommand> = Vec::new();
            proof {
                assert(cmds_view(r@) =~= parse_body(b@, i as int));
            }
            return r;
        }
        let c = to_upper(b[i]);
        if c == 'Z' || c == 'A' || c == 'H' || c == 'O' {
            let cmd = if c == 'Z' {
                ATCommand::Reset
            } else if c == 'A' {
                ATCommand::Answer
            } else if c == 'H' {
                ATCommand::Hangup
            } else {
                ATCommand::GoOnline
            };
            let ghost cv = cmd@;
            let mut rest = Self::parse_body_exec(b, i + 1);
            proof {
                lemma_cmds_view_cons(cmd, rest@);
            }
            rest.insert(0, cmd);
            return rest;
        }
        if c == 'E' || c == 'V' || c == 'M' {
            let mut val = true;
            let mut ni = i + 1;
            if i + 1 < b.len() {
                if b[i + 1] == '0' {
                    val = false;
                    ni = i + 2;
                } else if b[i + 1] == '1' {
                    val = true;
                    ni = i + 2;
                }
            }
            proof {
                assert((val, ni as int) == flag_arg(b@, i + 1));
            }
            let cmd = if c == 'E' {
                ATCommand::SetEcho(val)
            } else if c == 'V' {
                ATCommand::SetVerbose(val)
            } else {
                ATCommand::SetSpeaker(val)
            };
            let mut rest = Self::parse_body_exec(b, ni);
            proof {
                lemma_cmds_view_cons(cmd, rest@);
            }
            rest.insert(0, cmd);
            return rest;
        }
        if c == 'D' {
            let j = if i + 1 < b.len() && (to_upper(b[i + 1]) == 'T' || to_upper(b[i + 1]) == 'P') {
                i + 2
            } else {
                i + 1
            };
            let digits = copy_range(b, j, b.len());
            let mut r: Vec<ATCommand> = Vec::new();
            r.push(ATCommand::Dial(chars_to_string(&digits)));
            proof {
                assert(cmds_view(r@) =~= parse_body(b@, i as int));
            }
            return r;
        }
        if c == 'I' {
            let e = scan_digits(b, i + 1);
            let ds = if e == i + 1 {
                let mut d: Vec<char> = Vec::new();
                d.push('0');
                proof {
                    assert(d@ =~= seq!['0']);
                }
                d
            } else {
                copy_range(b, i + 1, e)
            };
            let cmd = ATCommand::Info(chars_to_string(&ds));
            let mut rest = Self::parse_body_exec(b, e);
            proof {
                lemma_cmds_view_cons(cmd, rest@);
            }
            rest.insert(0, cmd);
            return rest;
        }
        if c == 'S' {
            return Self::parse_s_command(b, i);
        }
        if c == '+' {
            let e = scan_semi(b, i + 1);
            let token = copy_range(b, i, e);
            let cmd = match Self::parse_extended(&token) {
                Some(cmd) => cmd,
                None => ATCommand::Unknown(chars_to_string(&token)),
            };
            let mut rest = Self::parse_body_exec(b, e);
            proof {
                lemma_cmds_view_cons(cmd, rest@);
            }
            rest.insert(0, cmd);
            return rest;
        }
        if c == ';' {
            return Self::parse_body_exec(b, i + 1);
        }
        let mut u: Vec<char> = Vec::new();
        u.push(c);
        let tail = copy_range(b, i + 1, b.len());
        push_all(&mut u, &tail);
        let mut r: Vec<ATCommand> = Vec::new();
        r.push(ATCommand::Unknown(chars_to_string(&u)));
        proof {
            assert(u@ =~= seq![upper_char(b@[i as int])] + b@.subrange(i + 1, b@.len() as int));
            assert(cmds_view(r@) =~= parse_body(b@, i as int));
        }
        r
    }

    /// `S<n>=<v>` / `S<n>?` register commands, with the original's
    /// fallbacks for malformed digits.
    fn parse_s_command(b: &Vec<char>, i: usize) -> (r: Vec<ATCommand>)
        requires
            i < b@.len(),
            upper_char(b@[i as int]) == 'S',
        ensures
            cmds_view(r@) == parse_body(b@, i as int),
        decreases b@.len() - i, 0int,
    {
        let blen = b.len();
        proof {
            assert(i < blen);
        }
        let e = scan_digits(b, i + 1);
        let ds = copy_range(b, i + 1, e);
        match parse_u8_digits(&ds) {
            None => {
                let mut u: Vec<char> = Vec::new();
                u.push('S');
                push_all(&mut u, &ds);
                let cmd = ATCommand::Unknown(chars_to_string(&u));
                proof {
                    assert(u@ =~= seq!['S'] + b@.subrange(i + 1, e as int));
                }
                let mut rest = Self::parse_body_exec(b, e);
                proof {
                    lemma_cmds_view_cons(cmd, rest@);
                }
                rest.insert(0, cmd);
                rest
            },
            Some(reg) => {
                if e < b.len() && b[e] == '=' {
                    let e2 = scan_digits(b, e + 1);
                    let vs = copy_range(b, e + 1, e2);
                    match parse_u8_digits(&vs) {
                        Some(val) => {
                            let cmd = ATCommand::SetRegister(reg, val);
                            let mut rest = Self::parse_body_exec(b, e2);
                            proof {
                                lemma_cmds_view_cons(cmd, rest@);
                            }
                            rest.insert(0, cmd);
                            rest
                        },
                        None => {
                            let mut u: Vec<char> = Vec::new();
                            u.push('S');
                            let rd = dec_digits_vec(reg as u32);
                            push_all(&mut u, &rd);
                            u.push('=');
                            push_all(&mut u, &vs);
                            let cmd = ATCommand::Unknown(chars_to_string(&u));
                            proof {
                                assert(u@ =~= seq!['S'] + dec_digits(reg as nat) + seq!['=']
                                    + b@.subrange(e + 1, e2 as int));
                            }
                            let mut rest = Self::parse_body_exec(b, e2);
                            proof {
                                lemma_cmds_view_cons(cmd, rest@);
                            }
                            rest.insert(0, cmd);
                            rest
                        },
                    }
                } else if e < b.len() && b[e] == '?' {
                    let cmd = ATCommand::QueryRegister(reg);
                    let mut rest = Self::parse_body_exec(b, e + 1);
                    proof {
                        lemma_cmds_view_cons(cmd, rest@);
                    }
                    rest.insert(0, cmd);
                    rest
                } else {
                    let mut u: Vec<char> = Vec::new();
                    u.push('S');
                    let rd = dec_digits_vec(reg as u32);
                    push_all(&mut u, &rd);
                    let cmd = ATCommand::Unknown(chars_to_string(&u));
                    proof {
                        assert(u@ =~= seq!['S'] + dec_digits(reg as nat));
                    }
                    let mut rest = Self::parse_body_exec(b, e);
                    proof {
                        lemma_cmds_view_cons(cmd, rest@);
                    }
                    rest.insert(0, cmd);
                    rest
                }
            },
        }
    }

    /// Extended (`+`) tokens; only `+MS=<speed>` is recognized.
    fn parse_extended(token: &Vec<char>) -> (r: Option<ATCommand>)
        ensures
            match r {
                Option::Some(c) => parse_extended_spec(token@) == Some(c@),
                Option::None => parse_extended_spec(token@) is None,
            },
    {
        if token.len() >= 4 && to_upper(token[0]) == '+' && to_upper(token[1]) == 'M' && to_upper(
            token[2],
        ) == 'S' && to_upper(token[3]) == '=' {
            let e = scan_digits(token, 4);
            let ds = copy_range(token, 4, e);
            match parse_u32_digits(&ds) {
                Some(speed) => Some(ATCommand::SelectSpeed(speed)),
                None => None,
            }
        } else {
            None
        }
    }
}

} // verus!
