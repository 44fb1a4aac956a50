// Hayes AT parser and response formatting, exercised through the
// public parser API.

use hsf_softmodem::at_commands::{ATCommand, ATCommandParser, ATResponse};

#[test]
fn test_basic_at_commands() {
    let mut parser = ATCommandParser::new();

    assert_eq!(parser.parse_command_line("AT"), vec![ATCommand::Attention]);
    assert_eq!(parser.parse_command_line("ATZ"), vec![ATCommand::Reset]);
    assert_eq!(parser.parse_command_line("ATA"), vec![ATCommand::Answer]);
    assert_eq!(parser.parse_command_line("ATH"), vec![ATCommand::Hangup]);
    assert_eq!(parser.parse_command_line("ATO"), vec![ATCommand::GoOnline]);
}

#[test]
fn test_dial_command() {
    let mut parser = ATCommandParser::new();

    let cmds = parser.parse_command_line("ATDT5551234");
    assert_eq!(cmds.len(), 1);
    if let ATCommand::Dial(number) = &cmds[0] {
        assert_eq!(number, "5551234");
    } else {
        panic!("Expected Dial command");
    }

    let cmds = parser.parse_command_line("ATDP9876543");
    if let ATCommand::Dial(number) = &cmds[0] {
        assert_eq!(number, "9876543");
    } else {
        panic!("Expected Dial command");
    }
}

#[test]
fn test_dial_command_tone_and_pulse_prefixes_are_ignored() {
    let mut parser = ATCommandParser::new();

    let cmds = parser.parse_command_line("ATDT5551234");
    assert_eq!(cmds.len(), 1);
    match &cmds[0] {
        ATCommand::Dial(number) => assert_eq!(number, "5551234"),
        other => panic!("Expected Dial command, got {:?}", other),
    }

    let cmds = parser.parse_command_line("ATDP9876543");
    assert_eq!(cmds.len(), 1);
    match &cmds[0] {
        ATCommand::Dial(number) => assert_eq!(number, "9876543"),
        other => panic!("Expected Dial command, got {:?}", other),
    }
}

#[test]
fn test_s_register_commands() {
    let mut parser = ATCommandParser::new();

    let cmds = parser.parse_command_line("ATS0=2");
    assert_eq!(cmds.len(), 1);
    match cmds[0] {
        ATCommand::SetRegister(reg, val) => {
            assert_eq!(reg, 0);
            assert_eq!(val, 2);
        }
        _ => panic!("Expected SetRegister"),
    }

    let cmds = parser.parse_command_line("ATS7?");
    assert_eq!(cmds, vec![ATCommand::QueryRegister(7)]);
}

#[test]
fn test_echo_verbose_commands() {
    let mut parser = ATCommandParser::new();

    let cmds = parser.parse_command_line("ATE0");
    assert_eq!(cmds[0], ATCommand::SetEcho(false));

    let cmds = parser.parse_command_line("ATV1");
    assert_eq!(cmds[0], ATCommand::SetVerbose(true));
}

#[test]
fn test_echo_verbose_speaker_commands() {
    let mut parser = ATCommandParser::new();

    assert_eq!(parser.parse_command_line("ATE0"), vec![ATCommand::SetEcho(false)]);
    assert_eq!(parser.parse_command_line("ATE1"), vec![ATCommand::SetEcho(true)]);

    assert_eq!(parser.parse_command_line("ATV0"), vec![ATCommand::SetVerbose(false)]);
    assert_eq!(parser.parse_command_line("ATV1"), vec![ATCommand::SetVerbose(true)]);

    assert_eq!(parser.parse_command_line("ATM0"), vec![ATCommand::SetSpeaker(false)]);
    assert_eq!(parser.parse_command_line("ATM1"), vec![ATCommand::SetSpeaker(true)]);
}

#[test]
fn test_compound_commands() {
    let mut parser = ATCommandParser::new();

    let cmds = parser.parse_command_line("ATE1V1Z");
    assert!(cmds.len() >= 3);

    assert!(cmds.iter().any(|c| matches!(c, ATCommand::SetEcho(true))));
    assert!(cmds.iter().any(|c| matches!(c, ATCommand::SetVerbose(true))));
    assert!(cmds.iter().any(|c| matches!(c, ATCommand::Reset)));
}

#[test]
fn test_compound_commands_in_order() {
    let mut parser = ATCommandParser::new();

    let cmds = parser.parse_command_line("ATE1V1Z");
    assert_eq!(
        cmds,
        vec![
            ATCommand::SetEcho(true),
            ATCommand::SetVerbose(true),
            ATCommand::Reset,
        ]
    );
}

#[test]
fn test_extended_speed_selection() {
    let mut parser = ATCommandParser::new();

    let cmds = parser.parse_command_line("AT+MS=300");
    assert_eq!(cmds, vec![ATCommand::SelectSpeed(300)]);
}

#[test]
fn test_streaming_parser_process_char() {
    let mut parser = ATCommandParser::new();

    let mut out: Option<Vec<ATCommand>> = None;
    for ch in "ATZ\r".chars() {
        if let Some(cmds) = parser.process_char(ch) {
            out = Some(cmds);
        }
    }

    assert_eq!(out.unwrap(), vec![ATCommand::Reset]);
}

#[test]
fn test_streaming_parser_blank_line_yields_nothing() {
    let mut parser = ATCommandParser::new();

    for ch in "   \r".chars() {
        assert!(parser.process_char(ch).is_none());
    }
}

#[test]
fn test_response_formatting() {
    let resp = ATResponse::Okay;
    assert_eq!(resp.to_string(), "OK\r\n");

    let resp = ATResponse::Connect(2400);
    assert_eq!(resp.to_string(), "CONNECT 2400\r\n");

    let resp = ATResponse::Error;
    assert_eq!(resp.to_string(), "ERROR\r\n");

    let resp = ATResponse::Text("HSF Softmodem".to_string());
    assert_eq!(resp.to_string(), "HSF Softmodem\r\n");
}

#[test]
fn test_response_formatting_all_variants() {
    assert_eq!(ATResponse::Ring.to_string(), "RING\r\n");
    assert_eq!(ATResponse::NoCarrier.to_string(), "NO CARRIER\r\n");
    assert_eq!(ATResponse::NoDialtone.to_string(), "NO DIALTONE\r\n");
    assert_eq!(ATResponse::Busy.to_string(), "BUSY\r\n");
    assert_eq!(ATResponse::NoAnswer.to_string(), "NO ANSWER\r\n");
    assert_eq!(ATResponse::Connect(300).to_string(), "CONNECT 300\r\n");
}

#[test]
fn test_escape_sequence_detection() {
    let _escape_char = b'+';
    let mut plus_count = 0;

    for _ in 0..3 {
        plus_count += 1;
    }

    assert_eq!(plus_count, 3);
}

#[test]
fn test_unknown_commands_and_fallbacks() {
    let mut parser = ATCommandParser::new();

    let cmds = parser.parse_command_line("hello");
    assert_eq!(cmds, vec![ATCommand::Unknown("hello".to_string())]);

    let cmds = parser.parse_command_line("ATX9");
    assert_eq!(cmds, vec![ATCommand::Unknown("X9".to_string())]);

    let cmds = parser.parse_command_line("ATS=5");
    assert_eq!(cmds[0], ATCommand::Unknown("S".to_string()));

    let cmds = parser.parse_command_line("ATS300=1");
    assert_eq!(cmds[0], ATCommand::Unknown("S300".to_string()));

    let cmds = parser.parse_command_line("AT+FOO");
    assert_eq!(cmds, vec![ATCommand::Unknown("+FOO".to_string())]);
}

#[test]
fn test_parser_case_insensitive_and_trimmed() {
    let mut parser = ATCommandParser::new();

    assert_eq!(parser.parse_command_line("  atz  "), vec![ATCommand::Reset]);
    assert_eq!(parser.parse_command_line("aTh"), vec![ATCommand::Hangup]);
    assert_eq!(parser.parse_command_line("at+ms=1200"), vec![ATCommand::SelectSpeed(1200)]);
}

#[test]
fn test_command_rendering() {
    assert_eq!(ATCommand::Attention.to_text(), "AT");
    assert_eq!(ATCommand::Reset.to_text(), "ATZ");
    assert_eq!(ATCommand::SetRegister(7, 3).to_text(), "ATS7=3");
    assert_eq!(ATCommand::QueryRegister(12).to_text(), "ATS12?");
    assert_eq!(ATCommand::SelectSpeed(1200).to_text(), "AT+MS=1200");
    assert_eq!(ATCommand::Dial("5551234".to_string()).to_text(), "ATD5551234");
    assert_eq!(ATCommand::SetEcho(false).to_text(), "ATE0");
}

#[test]
fn test_s_command_continues_after_fallback() {
    let mut parser = ATCommandParser::new();

    // A malformed register access emits its fallback and parsing goes
    // on with the rest of the body.
    let cmds = parser.parse_command_line("ATS5Z");
    assert_eq!(
        cmds,
        vec![ATCommand::Unknown("S5".to_string()), ATCommand::Reset]
    );

    let cmds = parser.parse_command_line("ATS1=Z");
    assert_eq!(cmds[0], ATCommand::Unknown("S1=".to_string()));
    assert_eq!(cmds[1], ATCommand::Reset);
}

#[test]
fn test_bare_flag_and_dial_arguments() {
    let mut parser = ATCommandParser::new();

    // A flag letter with no digit defaults to on.
    assert_eq!(parser.parse_command_line("ATE"), vec![ATCommand::SetEcho(true)]);

    // A dial command swallows the rest of the line, even empty.
    assert_eq!(parser.parse_command_line("ATD"), vec![ATCommand::Dial(String::new())]);
    assert_eq!(parser.parse_command_line("atdt555x9"), vec![ATCommand::Dial("555x9".to_string())]);
}

#[test]
fn test_info_argument_defaults_and_continuation() {
    let mut parser = ATCommandParser::new();

    assert_eq!(parser.parse_command_line("ATI"), vec![ATCommand::Info("0".to_string())]);

    let cmds = parser.parse_command_line("ATI12X3");
    assert_eq!(
        cmds,
        vec![
            ATCommand::Info("12".to_string()),
            ATCommand::Unknown("X3".to_string()),
        ]
    );
}

#[test]
fn test_extended_token_ends_at_separator() {
    let mut parser = ATCommandParser::new();

    let cmds = parser.parse_command_line("AT+MS=1200;Z");
    assert_eq!(cmds, vec![ATCommand::SelectSpeed(1200), ATCommand::Reset]);
}
