//! The command lines of the daemon and of the servers that run alone.
use crate::config::CliOverrides;
use crate::tuner::Decibels;
use vstd::arithmetic::power::{lemma_pow0, lemma_pow1, pow};
use vstd::prelude::*;
use vstd::string::*;

verus! {

// ── Ports ───────────────────────────────────────────────────────────────────
pub open spec fn is_digit(c: char) -> bool {
    '0' <= c <= '9'
}

/// The number that decimal digits stand for.
pub open spec fn decimal(digits: Seq<char>) -> int
    decreases digits.len(),
{
    if digits.len() == 0 {
        0
    } else {
        decimal(digits.drop_last()) * 10 + (digits.last() as int - '0' as int)
    }
}

/// The digits of a number: what follows an optional plus sign.
pub open spec fn digits_of(s: Seq<char>) -> Seq<char> {
    if s.len() > 0 && s[0] == '+' {
        s.skip(1)
    } else {
        s
    }
}

/// The port that a text stands for: at least one digit and nothing but digits, up to
/// 65535.
pub open spec fn port_of(s: Seq<char>) -> Option<int> {
    let digits = digits_of(s);
    if digits.len() > 0 && (forall|i: int| 0 <= i < digits.len() ==> is_digit(#[trigger] digits[i]))
        && decimal(digits) <= 65535 {
        Some(decimal(digits))
    } else {
        None
    }
}

proof fn lemma_decimal_grows(digits: Seq<char>, n: int)
    requires
        0 <= n <= digits.len(),
        forall|i: int| 0 <= i < digits.len() ==> is_digit(#[trigger] digits[i]),
    ensures
        0 <= decimal(digits.take(n)) <= decimal(digits),
    decreases digits.len(),
{
    if digits.len() == 0 {
        assert(digits.take(n) =~= digits);
    } else if n == digits.len() {
        assert(digits.take(n) =~= digits);
        lemma_decimal_grows(digits.drop_last(), digits.len() - 1);
        assert(digits.drop_last().take(digits.len() - 1) =~= digits.drop_last());
    } else {
        lemma_decimal_grows(digits.drop_last(), n);
        assert(digits.drop_last().take(n) =~= digits.take(n));
    }
}

/// Reads a port number.
pub fn parse_port(s: &str) -> (port: Option<u16>)
    ensures
        match port_of(s@) {
            Some(n) => port matches Some(p) && p == n,
            None => port is None,
        },
{
    let len: usize = s.unicode_len();
    let start: usize = if len > 0 && s.get_char(0) == '+' {
        1
    } else {
        0
    };
    let ghost digits = digits_of(s@);
    assert(digits =~= s@.skip(start as int));
    if start >= len {
        return None;
    }
    let mut value: u32 = 0;
    let mut i: usize = start;
    assert(digits.take(0) =~= Seq::empty());
    while i < len
        invariant
            start <= i <= len,
            len == s@.len(),
            digits == s@.skip(start as int),
            digits == digits_of(s@),
            value <= 65535,
            value == decimal(digits.take(i - start)),
            forall|j: int| 0 <= j < i - start ==> is_digit(#[trigger] digits[j]),
        decreases len - i,
    {
        let c: char = s.get_char(i);
        assert(c == digits[i - start]);
        if c < '0' || c > '9' {
            return None;
        }
        value = value * 10 + (c as u32 - '0' as u32);
        proof {
            let next = digits.take(i - start + 1);
            assert(next.drop_last() =~= digits.take(i - start));
        }
        if value > 65535 {
            proof {
                if forall|j: int| 0 <= j < digits.len() ==> is_digit(#[trigger] digits[j]) {
                    lemma_decimal_grows(digits, i - start + 1);
                }
            }
            return None;
        }
        i = i + 1;
    }
    assert(digits.take(i - start) =~= digits);
    Some(value as u16)
}

// ── Arguments ───────────────────────────────────────────────────────────────
/// What a server is started with.
pub struct Args {
    pub address: String,
    pub port: u16,
    pub cert: Option<String>,
    pub key: Option<String>,
}

/// The server that a command line is for.
#[derive(Debug, Clone, Copy, PartialEq, Eq, Structural)]
pub enum Program {
    RtlTcp,
    WebSdr,
}

#[derive(Debug, Clone, Copy, PartialEq, Eq, Structural)]
pub enum Flag {
    Address,
    Port,
    Cert,
    Key,
    Help,
}

/// What is wrong with a command line. `at` is the position of the argument.
#[derive(Debug, Clone, Copy, PartialEq, Eq, Structural)]
pub enum ArgError {
    MissingValue { flag: Flag },
    InvalidPort { at: usize },
    Unknown { at: usize },
}

/// What a command line asks for.
pub enum Request {
    Run(Args),
    Help,
}

/// The arguments as texts.
pub open spec fn texts(args: Seq<String>) -> Seq<Seq<char>> {
    args.map_values(|a: String| a@)
}

/// The flag that an argument is. Only the WebSDR has a certificate and a key.
pub open spec fn flag_of(program: Program, arg: Seq<char>) -> Option<Flag> {
    if arg == "-a"@ || arg == "--address"@ {
        Some(Flag::Address)
    } else if arg == "-p"@ || arg == "--port"@ {
        Some(Flag::Port)
    } else if program == Program::WebSdr && arg == "--cert"@ {
        Some(Flag::Cert)
    } else if program == Program::WebSdr && arg == "--key"@ {
        Some(Flag::Key)
    } else if arg == "-h"@ || arg == "--help"@ {
        Some(Flag::Help)
    } else {
        None
    }
}

fn is_text(arg: &String, text: &str) -> (b: bool)
    ensures
        b == (arg@ == text@),
{
    let text: String = text.to_owned();
    *arg == text
}

fn find_flag(program: Program, arg: &String) -> (flag: Option<Flag>)
    ensures
        flag == flag_of(program, arg@),
{
    if is_text(arg, "-a") || is_text(arg, "--address") {
        Some(Flag::Address)
    } else if is_text(arg, "-p") || is_text(arg, "--port") {
        Some(Flag::Port)
    } else if program == Program::WebSdr && is_text(arg, "--cert") {
        Some(Flag::Cert)
    } else if program == Program::WebSdr && is_text(arg, "--key") {
        Some(Flag::Key)
    } else if is_text(arg, "-h") || is_text(arg, "--help") {
        Some(Flag::Help)
    } else {
        None
    }
}

/// [`Args`] as texts and numbers.
pub struct ArgsView {
    pub address: Seq<char>,
    pub port: int,
    pub cert: Option<Seq<char>>,
    pub key: Option<Seq<char>>,
}

pub open spec fn text_of(s: Option<String>) -> Option<Seq<char>> {
    match s {
        Some(s) => Some(s@),
        None => None,
    }
}

impl View for Args {
    type V = ArgsView;

    open spec fn view(&self) -> ArgsView {
        ArgsView {
            address: self.address@,
            port: self.port as int,
            cert: text_of(self.cert),
            key: text_of(self.key),
        }
    }
}

/// What the command line says, as texts and numbers.
pub enum Meaning {
    Run(ArgsView),
    Help,
    Wrong(ArgError),
}

/// What a server is started with when nothing is said: all interfaces, and the
/// port that is usual for it.
pub open spec fn default_args(program: Program) -> ArgsView {
    ArgsView {
        address: "0.0.0.0"@,
        port: if program == Program::RtlTcp {
            1234
        } else {
            8080
        },
        cert: None,
        key: None,
    }
}

/// The meaning of the arguments from position `i` on, on top of what those before
/// said. Help is given, and a mistake reported, where it is met first.
pub open spec fn meaning_from(
    program: Program,
    args: Seq<Seq<char>>,
    i: int,
    acc: ArgsView,
) -> Meaning
    decreases args.len() - i,
{
    if i >= args.len() {
        Meaning::Run(acc)
    } else {
        match flag_of(program, args[i]) {
            None => Meaning::Wrong(ArgError::Unknown { at: i as usize }),
            Some(Flag::Help) => Meaning::Help,
            Some(flag) => if i + 1 >= args.len() {
                Meaning::Wrong(ArgError::MissingValue { flag })
            } else {
                let value = args[i + 1];
                match flag {
                    Flag::Address => meaning_from(
                        program,
                        args,
                        i + 2,
                        ArgsView { address: value, ..acc },
                    ),
                    Flag::Cert => meaning_from(
                        program,
                        args,
                        i + 2,
                        ArgsView { cert: Some(value), ..acc },
                    ),
                    Flag::Key => meaning_from(
                        program,
                        args,
                        i + 2,
                        ArgsView { key: Some(value), ..acc },
                    ),
                    _ => match port_of(value) {
                        Some(port) => meaning_from(
                            program,
                            args,
                            i + 2,
                            ArgsView { port, ..acc },
                        ),
                        None => Meaning::Wrong(ArgError::InvalidPort { at: (i + 1) as usize }),
                    },
                }
            },
        }
    }
}

pub open spec fn meaning(program: Program, args: Seq<Seq<char>>) -> Meaning {
    meaning_from(program, args, 0, default_args(program))
}

/// Reads the arguments that follow the program's name.
pub fn parse_args(program: Program, args: &Vec<String>) -> (res: core::result::Result<
    Request,
    ArgError,
>)
    ensures
        match meaning(program, texts(args@)) {
            Meaning::Run(view) => res matches Ok(Request::Run(a)) && a@ == view,
            Meaning::Help => res matches Ok(Request::Help),
            Meaning::Wrong(e) => res matches Err(f) && f == e,
        },
{
    let mut parsed = Args {
        address: "0.0.0.0".to_owned(),
        port: match program {
            Program::RtlTcp => 1234,
            Program::WebSdr => 8080,
        },
        cert: None,
        key: None,
    };
    let ghost all = meaning(program, texts(args@));
    let mut i: usize = 0;
    while i < args.len()
        invariant
            i <= args@.len(),
            all == meaning(program, texts(args@)),
            all == meaning_from(program, texts(args@), i as int, parsed@),
        decreases args@.len() - i,
    {
        assert(texts(args@)[i as int] == args@[i as int]@);
        let flag = match find_flag(program, &args[i]) {
            Some(flag) => flag,
            None => {
                return Err(ArgError::Unknown { at: i });
            },
        };
        if flag == Flag::Help {
            return Ok(Request::Help);
        }
        if args.len() - i < 2 {
            return Err(ArgError::MissingValue { flag });
        }
        assert(texts(args@)[i + 1] == args@[i + 1]@);
        let value: String = args[i + 1].clone();
        match flag {
            Flag::Address => {
                parsed.address = value;
            },
            Flag::Cert => {
                parsed.cert = Some(value);
            },
            Flag::Key => {
                parsed.key = Some(value);
            },
            _ => {
                parsed.port = match parse_port(value.as_str()) {
                    Some(port) => port,
                    None => {
                        return Err(ArgError::InvalidPort { at: i + 1 });
                    },
                };
            },
        }
        i = i + 2;
    }
    Ok(Request::Run(parsed))
}

// ── Daemon flags ────────────────────────────────────────────────────────────
/// What the daemon's command line gives beside the configuration file. `None` means that
/// the flag was not given.
#[derive(Debug)]
pub struct DaemonFlags {
    pub device: Option<u32>,
    pub sample_rate: Option<u32>,
    pub freq: Option<u64>,
    pub gain: Option<Decibels>,
    pub ppm: Option<i32>,
    pub bias_t: bool,
    pub buffers: Option<usize>,
    pub buffer_size: Option<usize>,
    pub rtl_tcp: Option<String>,
    pub websdr: Option<String>,
    pub unix: Option<String>,
    pub cert: Option<String>,
    pub key: Option<String>,
}

impl DaemonFlags {
    /// Makes the flags override what the configuration file says. The switch of the bias
    /// tee does so only where it is given: without it the file decides.
    pub fn into_overrides(self) -> (o: CliOverrides)
        ensures
            o.device_index == self.device,
            o.sample_rate == self.sample_rate,
            o.initial_freq == self.freq,
            o.initial_gain == self.gain,
            o.ppm == self.ppm,
            o.bias_t == if self.bias_t {
                Some(true)
            } else {
                None
            },
            o.num_buffers == self.buffers,
            o.buffer_size == self.buffer_size,
            o.rtl_tcp == self.rtl_tcp,
            o.websdr == self.websdr,
            o.unix_socket == self.unix,
            o.cert == self.cert,
            o.key == self.key,
    {
        CliOverrides {
            device_index: self.device,
            sample_rate: self.sample_rate,
            initial_freq: self.freq,
            initial_gain: self.gain,
            ppm: self.ppm,
            bias_t: if self.bias_t {
                Some(true)
            } else {
                None
            },
            num_buffers: self.buffers,
            buffer_size: self.buffer_size,
            rtl_tcp: self.rtl_tcp,
            websdr: self.websdr,
            unix_socket: self.unix,
            cert: self.cert,
            key: self.key,
        }
    }
}

// ── Laws ────────────────────────────────────────────────────────────────────
/// The digits of a number count in powers of ten, the last one ones.
pub proof fn lemma_decimal_positions(front: Seq<char>, back: Seq<char>, digit: char)
    ensures
        decimal(front + back) == decimal(front) * pow(10, back.len()) + decimal(back),
        decimal(seq![digit]) == digit as int - '0' as int,
    decreases back.len(),
{
    lemma_pow0(10);
    reveal_with_fuel(decimal, 2);
    assert(seq![digit].drop_last() =~= Seq::empty());
    if back.len() == 0 {
        assert(front + back =~= front);
    } else {
        let shorter = back.drop_last();
        lemma_decimal_positions(front, shorter, digit);
        assert((front + back).drop_last() =~= front + shorter);
        lemma_pow1(10);
        reveal(pow);
        let scale = pow(10, shorter.len());
        assert(pow(10, back.len()) == 10 * scale);
        assert((decimal(front) * scale + decimal(shorter)) * 10 == decimal(front) * (10 * scale)
            + decimal(shorter) * 10) by (nonlinear_arith);
    }
}

/// A port is at most 65535, is written in digits alone, and may have a plus sign.
pub proof fn lemma_ports(s: Seq<char>)
    ensures
        port_of(s) matches Some(n) ==> n <= 65535,
        s.len() > 0 && s[0] != '+' ==> port_of(seq!['+'] + s) == port_of(s),
        s.len() > 0 && s[0] != '+' ==> (port_of(s) is Some <==> decimal(s) <= 65535 && forall|i: int|
            0 <= i < s.len() ==> '0' <= #[trigger] s[i] <= '9'),
        s.len() > 0 && s[0] != '+' && port_of(s) is Some ==> port_of(s) == Some(decimal(s)),
        s.len() == 0 ==> port_of(s) is None,
{
    let signed = seq!['+'] + s;
    assert(signed.skip(1) =~= s);
    if s.len() > 0 && s[0] != '+' {
        if forall|i: int| 0 <= i < s.len() ==> '0' <= #[trigger] s[i] <= '9' {
            assert forall|i: int| 0 <= i < s.len() implies is_digit(#[trigger] s[i]) by {
                assert('0' <= s[i] <= '9');
            }
        }
        if forall|i: int| 0 <= i < s.len() ==> is_digit(#[trigger] s[i]) {
            assert forall|i: int| 0 <= i < s.len() implies '0' <= #[trigger] s[i] <= '9' by {
                assert(is_digit(s[i]));
            }
        }
    }
}

/// Without arguments a server listens on all interfaces, at port 1234 for rtl_tcp and at
/// port 8080 for the WebSDR, and without a certificate.
pub proof fn lemma_default_command_line(program: Program)
    ensures
        meaning(program, Seq::empty()) matches Meaning::Run(a) && a.address == "0.0.0.0"@ && a.port
            == (if program == Program::RtlTcp {
            1234int
        } else {
            8080
        }) && a.cert is None && a.key is None,
{
}

/// A flag and its value at the end of a command line that is otherwise in order have the
/// last word: the address and the paths are taken as they are, the port as a number. Nothing
/// else changes.
pub proof fn lemma_last_flag_wins(
    program: Program,
    args: Seq<Seq<char>>,
    i: int,
    acc: ArgsView,
    value: Seq<char>,
)
    requires
        0 <= i <= args.len(),
        meaning_from(program, args, i, acc) is Run,
    ensures
        ({
            let before = meaning_from(program, args, i, acc)->Run_0;
            let with = |flag: Seq<char>| meaning_from(program, args + seq![flag, value], i, acc);
            let addressed = Meaning::Run(ArgsView { address: value, ..before });
            let ported = match port_of(value) {
                Some(port) => Meaning::Run(ArgsView { port, ..before }),
                None => Meaning::Wrong(ArgError::InvalidPort { at: (args.len() + 1) as usize }),
            };
            &&& with("-a"@) == addressed && with("--address"@) == addressed
            &&& with("-p"@) == ported && with("--port"@) == ported
            &&& program == Program::WebSdr ==> with("--cert"@) == Meaning::Run(
                ArgsView { cert: Some(value), ..before },
            ) && with("--key"@) == Meaning::Run(ArgsView { key: Some(value), ..before })
            &&& program == Program::RtlTcp ==> with("--cert"@) is Wrong && with("--key"@) is Wrong
            &&& with("-h"@) is Help && with("--help"@) is Help
        }),
{
    lemma_flags_differ();
    reveal_with_fuel(meaning_from, 2);
    lemma_read_up_to(program, args, i, acc, "-a"@, value);
    lemma_read_up_to(program, args, i, acc, "--address"@, value);
    lemma_read_up_to(program, args, i, acc, "-p"@, value);
    lemma_read_up_to(program, args, i, acc, "--port"@, value);
    lemma_read_up_to(program, args, i, acc, "--cert"@, value);
    lemma_read_up_to(program, args, i, acc, "--key"@, value);
    lemma_read_up_to(program, args, i, acc, "-h"@, value);
    lemma_read_up_to(program, args, i, acc, "--help"@, value);
}

/// What follows a command line that is in order is read on top of what that says.
proof fn lemma_read_up_to(
    program: Program,
    args: Seq<Seq<char>>,
    i: int,
    acc: ArgsView,
    flag: Seq<char>,
    value: Seq<char>,
)
    requires
        0 <= i <= args.len(),
        meaning_from(program, args, i, acc) is Run,
    ensures
        meaning_from(program, args + seq![flag, value], i, acc) == meaning_from(
            program,
            args + seq![flag, value],
            args.len() as int,
            meaning_from(program, args, i, acc)->Run_0,
        ),
    decreases args.len() - i,
{
    if i < args.len() {
        let given = args[i + 1];
        let next = match flag_of(program, args[i]) {
            Some(Flag::Address) => ArgsView { address: given, ..acc },
            Some(Flag::Cert) => ArgsView { cert: Some(given), ..acc },
            Some(Flag::Key) => ArgsView { key: Some(given), ..acc },
            _ => ArgsView { port: port_of(given)->0, ..acc },
        };
        lemma_read_up_to(program, args, i + 2, next, flag, value);
    }
}

/// The texts of the flags tell them apart.
proof fn lemma_flags_differ()
    ensures
        "-a"@.len() == 2 && "-a"@[1] == 'a',
        "-p"@.len() == 2 && "-p"@[1] == 'p',
        "-h"@.len() == 2 && "-h"@[1] == 'h',
        "--address"@.len() == 9,
        "--port"@.len() == 6 && "--port"@[2] == 'p',
        "--cert"@.len() == 6 && "--cert"@[2] == 'c',
        "--key"@.len() == 5,
        "--help"@.len() == 6 && "--help"@[2] == 'h',
{
    reveal_strlit("-a");
    reveal_strlit("-p");
    reveal_strlit("-h");
    reveal_strlit("--address");
    reveal_strlit("--port");
    reveal_strlit("--cert");
    reveal_strlit("--key");
    reveal_strlit("--help");
}

/// After a command line that is in order, a text that is no flag is a mistake at its
/// position, and a flag without a value is one that names the flag.
pub proof fn lemma_mistakes_located(
    program: Program,
    args: Seq<Seq<char>>,
    i: int,
    acc: ArgsView,
    text: Seq<char>,
)
    requires
        0 <= i <= args.len() <= usize::MAX,
        meaning_from(program, args, i, acc) is Run,
    ensures
        ({
            let m = meaning_from(program, args.push(text), i, acc);
            let known = text == "-a"@ || text == "--address"@ || text == "-p"@ || text == "--port"@
                || text == "-h"@ || text == "--help"@ || program == Program::WebSdr && (text
                == "--cert"@ || text == "--key"@);
            &&& !known ==> m == Meaning::Wrong(ArgError::Unknown { at: args.len() as usize })
            &&& text == "-a"@ || text == "--address"@ ==> m == Meaning::Wrong(
                ArgError::MissingValue { flag: Flag::Address },
            )
            &&& text == "-p"@ || text == "--port"@ ==> m == Meaning::Wrong(
                ArgError::MissingValue { flag: Flag::Port },
            )
            &&& program == Program::WebSdr && text == "--cert"@ ==> m == Meaning::Wrong(
                ArgError::MissingValue { flag: Flag::Cert },
            )
            &&& program == Program::WebSdr && text == "--key"@ ==> m == Meaning::Wrong(
                ArgError::MissingValue { flag: Flag::Key },
            )
            &&& text == "-h"@ || text == "--help"@ ==> m is Help
        }),
    decreases args.len() - i,
{
    lemma_flags_differ();
    if i < args.len() {
        let given = args[i + 1];
        let next = match flag_of(program, args[i]) {
            Some(Flag::Address) => ArgsView { address: given, ..acc },
            Some(Flag::Cert) => ArgsView { cert: Some(given), ..acc },
            Some(Flag::Key) => ArgsView { key: Some(given), ..acc },
            _ => ArgsView { port: port_of(given)->0, ..acc },
        };
        lemma_mistakes_located(program, args, i + 2, next, text);
    }
}

} // verus!
