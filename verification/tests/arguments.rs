use rtlsdr_next::cli::{
    parse_args, parse_port, ArgError, Args, DaemonFlags, Flag, Program, Request,
};
use rtlsdr_next::tuner::Decibels;

fn args(list: &[&str]) -> Vec<String> {
    list.iter().map(|a| a.to_string()).collect()
}

fn run(program: Program, list: &[&str]) -> Args {
    match parse_args(program, &args(list)) {
        Ok(Request::Run(a)) => a,
        _ => panic!("expected a run"),
    }
}

fn wrong(program: Program, list: &[&str]) -> ArgError {
    match parse_args(program, &args(list)) {
        Err(e) => e,
        Ok(_) => panic!("expected a mistake"),
    }
}

#[test]
fn ports() {
    assert_eq!(parse_port("1234"), Some(1234));
    assert_eq!(parse_port("0"), Some(0));
    assert_eq!(parse_port("+80"), Some(80));
    assert_eq!(parse_port("00080"), Some(80));
    assert_eq!(parse_port("65535"), Some(65535));
    for text in ["", "+", "-1", "65536", "99999999999", "80 ", "8o", "1_000", "++1"] {
        assert_eq!(parse_port(text), None);
        assert!(text.parse::<u16>().is_err());
    }
}

#[test]
fn defaults_of_the_programs() {
    let a = run(Program::RtlTcp, &[]);
    assert_eq!((a.address.as_str(), a.port), ("0.0.0.0", 1234));
    let a = run(Program::WebSdr, &[]);
    assert_eq!((a.address.as_str(), a.port), ("0.0.0.0", 8080));
    assert_eq!(a.cert, None);
}

#[test]
fn flags_are_taken_in_any_order() {
    let a = run(
        Program::WebSdr,
        &["--key", "k.pem", "-p", "443", "--address", "::1", "--cert", "c.pem"],
    );
    assert_eq!((a.address.as_str(), a.port), ("::1", 443));
    assert_eq!(a.cert.as_deref(), Some("c.pem"));
    assert_eq!(a.key.as_deref(), Some("k.pem"));
    // The last one counts.
    let a = run(Program::RtlTcp, &["-a", "x", "--port", "1", "-a", "y", "-p", "2"]);
    assert_eq!((a.address.as_str(), a.port), ("y", 2));
}

#[test]
fn mistakes_are_reported() {
    assert_eq!(
        wrong(Program::RtlTcp, &["-a"]),
        ArgError::MissingValue { flag: Flag::Address }
    );
    assert_eq!(
        wrong(Program::RtlTcp, &["-a", "x", "-p"]),
        ArgError::MissingValue { flag: Flag::Port }
    );
    assert_eq!(wrong(Program::RtlTcp, &["-p", "many"]), ArgError::InvalidPort { at: 1 });
    assert_eq!(wrong(Program::RtlTcp, &["--cert", "c"]), ArgError::Unknown { at: 0 });
    assert_eq!(wrong(Program::WebSdr, &["-p", "1", "stray"]), ArgError::Unknown { at: 2 });
}

#[test]
fn help_is_given_where_it_is_met() {
    assert!(matches!(parse_args(Program::RtlTcp, &args(&["-h"])), Ok(Request::Help)));
    assert!(matches!(
        parse_args(Program::WebSdr, &args(&["-p", "1", "--help", "stray"])),
        Ok(Request::Help)
    ));
    assert!(parse_args(Program::RtlTcp, &args(&["stray", "-h"])).is_err());
}

fn no_flags() -> DaemonFlags {
    DaemonFlags {
        device: None,
        sample_rate: None,
        freq: None,
        gain: None,
        ppm: None,
        bias_t: false,
        buffers: None,
        buffer_size: None,
        rtl_tcp: None,
        websdr: None,
        unix: None,
        cert: None,
        key: None,
    }
}

#[test]
fn switches_override_only_when_given() {
    let on = DaemonFlags { bias_t: true, ..no_flags() }.into_overrides();
    assert_eq!(on.bias_t, Some(true));
    let none = no_flags().into_overrides();
    assert_eq!(none.bias_t, None);
    assert_eq!(none.device_index, None);
    assert_eq!(none.unix_socket, None);
}

#[test]
fn every_flag_overrides_its_own_setting() {
    let db = Decibels { bits: 12.5f32.to_bits() };
    let o = DaemonFlags {
        device: Some(1),
        sample_rate: Some(2_400_000),
        freq: Some(7_000_000),
        gain: Some(db),
        ppm: Some(-3),
        bias_t: false,
        buffers: Some(8),
        buffer_size: Some(1024),
        rtl_tcp: Some("tcp".to_string()),
        websdr: Some("web".to_string()),
        unix: Some("unix".to_string()),
        cert: Some("cert".to_string()),
        key: Some("key".to_string()),
    }
    .into_overrides();
    assert_eq!(o.device_index, Some(1));
    assert_eq!(o.sample_rate, Some(2_400_000));
    assert_eq!(o.initial_freq, Some(7_000_000));
    assert!(matches!(o.initial_gain, Some(g) if g == db));
    assert_eq!(o.ppm, Some(-3));
    assert_eq!(o.bias_t, None);
    assert_eq!(o.num_buffers, Some(8));
    assert_eq!(o.buffer_size, Some(1024));
    assert_eq!(o.rtl_tcp.as_deref(), Some("tcp"));
    assert_eq!(o.websdr.as_deref(), Some("web"));
    assert_eq!(o.unix_socket.as_deref(), Some("unix"));
    assert_eq!(o.cert.as_deref(), Some("cert"));
    assert_eq!(o.key.as_deref(), Some("key"));
}
