// The modem supervisor through its public API: command handling,
// state transitions, S-registers and the escape sequence.

use hsf_softmodem::at_commands::{ATCommand, ATCommandParser, ATResponse, ModemState};
use hsf_softmodem::modem::{ModemMode, VirtualModem};

#[test]
fn test_modem_initialization() {
    let modem = VirtualModem::new().expect("modem should init");
    assert_eq!(modem.get_state(), ModemState::Command);
}

#[test]
fn test_basic_attention_and_reset_cycle() {
    let mut modem = VirtualModem::new().unwrap();

    let responses = modem.process_command(ATCommand::Attention);
    assert_eq!(responses.len(), 1);
    assert_eq!(responses[0], ATResponse::Okay);

    let responses = modem.process_command(ATCommand::Reset);
    assert_eq!(responses.len(), 1);
    assert_eq!(responses[0], ATResponse::Okay);

    assert_eq!(modem.get_state(), ModemState::Command);
}

#[test]
fn test_speed_selection_via_command() {
    let mut modem = VirtualModem::new().unwrap();

    let responses = modem.process_command(ATCommand::SelectSpeed(1200));
    assert_eq!(responses, vec![ATResponse::Okay]);

    let responses = modem.process_command(ATCommand::SelectSpeed(2400));
    assert_eq!(responses, vec![ATResponse::Okay]);

    let responses = modem.process_command(ATCommand::SelectSpeed(300));
    assert_eq!(responses, vec![ATResponse::Okay]);
}

#[test]
fn test_modem_mode_switching() {
    let mut modem = VirtualModem::new().unwrap();

    assert_eq!(modem.process_command(ATCommand::SelectSpeed(1200)), vec![ATResponse::Okay]);
    assert_eq!(modem.current_mode(), ModemMode::V22);

    assert_eq!(modem.process_command(ATCommand::SelectSpeed(2400)), vec![ATResponse::Okay]);
    assert_eq!(modem.current_mode(), ModemMode::V22bis);

    assert_eq!(modem.process_command(ATCommand::SelectSpeed(300)), vec![ATResponse::Okay]);
    assert_eq!(modem.current_mode(), ModemMode::Bell103);

    // An unknown speed keeps the current mode but records the rate.
    assert_eq!(modem.process_command(ATCommand::SelectSpeed(9600)), vec![ATResponse::Okay]);
    assert_eq!(modem.current_mode(), ModemMode::Bell103);
    assert_eq!(modem.connection_speed(), 9600);
}

#[test]
fn test_dial_and_connect_flow() {
    let mut modem = VirtualModem::new().unwrap();

    assert_eq!(modem.get_state(), ModemState::Command);

    let responses = modem.process_command(ATCommand::Dial("5551234".to_string()));
    assert!(responses.iter().any(|r| matches!(r, ATResponse::Connect(_))));

    assert_eq!(modem.get_state(), ModemState::Connected);
}

#[test]
fn test_modem_command_processing() {
    let mut modem = VirtualModem::new().unwrap();

    let responses = modem.process_command(ATCommand::Reset);
    assert_eq!(responses.len(), 1);
    assert_eq!(responses[0], ATResponse::Okay);

    let responses = modem.process_command(ATCommand::Info("3".to_string()));
    assert_eq!(responses.len(), 1);
    if let ATResponse::Text(text) = &responses[0] {
        assert!(text.contains("HSF Softmodem"));
    }
}

#[test]
fn test_info_command_via_modem() {
    let mut modem = VirtualModem::new().unwrap();

    let responses = modem.process_command(ATCommand::Info("3".to_string()));
    assert_eq!(responses.len(), 1);

    match &responses[0] {
        ATResponse::Text(text) => assert!(text.contains("HSF Softmodem")),
        other => panic!("Expected Text response, got {:?}", other),
    }
}

#[test]
fn test_s_register_access() {
    let mut modem = VirtualModem::new().unwrap();

    let responses = modem.process_command(ATCommand::SetRegister(0, 3));
    assert_eq!(responses[0], ATResponse::Okay);

    let responses = modem.process_command(ATCommand::QueryRegister(0));
    if let ATResponse::Text(val) = &responses[0] {
        assert_eq!(val, "003");
    } else {
        panic!("Expected Text response to S0? query");
    }
}

#[test]
fn test_s_register_access_round_trip() {
    let mut modem = VirtualModem::new().unwrap();

    let responses = modem.process_command(ATCommand::SetRegister(0, 3));
    assert_eq!(responses, vec![ATResponse::Okay]);

    let responses = modem.process_command(ATCommand::QueryRegister(0));
    assert_eq!(responses.len(), 1);

    match &responses[0] {
        ATResponse::Text(val) => assert_eq!(val, "003"),
        other => panic!("Expected Text response, got {:?}", other),
    }
}

#[test]
fn test_attention_line_round_trip() {
    // AT\r answers OK\r\n and the state stays Command.
    let mut modem = VirtualModem::new().unwrap();
    let mut parser = ATCommandParser::new();

    let mut reply = String::new();
    for ch in "AT\r".chars() {
        if let Some(cmds) = parser.process_char(ch) {
            for cmd in cmds {
                for resp in modem.process_command(cmd) {
                    reply.push_str(&resp.to_string());
                }
            }
        }
    }

    assert_eq!(reply, "OK\r\n");
    assert_eq!(modem.get_state(), ModemState::Command);
}

#[test]
fn test_s_register_line_round_trip() {
    // ATS0=3\r answers OK\r\n; ATS0?\r then reports 003.
    let mut modem = VirtualModem::new().unwrap();
    let mut parser = ATCommandParser::new();

    let mut reply = String::new();
    for ch in "ATS0=3\r".chars() {
        if let Some(cmds) = parser.process_char(ch) {
            for cmd in cmds {
                for resp in modem.process_command(cmd) {
                    reply.push_str(&resp.to_string());
                }
            }
        }
    }
    assert_eq!(reply, "OK\r\n");

    let mut reply = String::new();
    for ch in "ATS0?\r".chars() {
        if let Some(cmds) = parser.process_char(ch) {
            for cmd in cmds {
                for resp in modem.process_command(cmd) {
                    reply.push_str(&resp.to_string());
                }
            }
        }
    }
    assert_eq!(reply, "003\r\n");
}

#[test]
fn test_dial_line_connects_at_300() {
    // ATDT5551234\r replies CONNECT 300\r\n and connects.
    let mut modem = VirtualModem::new().unwrap();
    let mut parser = ATCommandParser::new();

    let mut reply = String::new();
    for ch in "ATDT5551234\r".chars() {
        if let Some(cmds) = parser.process_char(ch) {
            for cmd in cmds {
                for resp in modem.process_command(cmd) {
                    reply.push_str(&resp.to_string());
                }
            }
        }
    }

    assert!(reply.contains("CONNECT 300\r\n"));
    assert_eq!(modem.get_state(), ModemState::Connected);
}

#[test]
fn test_s3_default_after_reset() {
    // After a reset, S3 reads back as 013 (carriage return).
    let mut modem = VirtualModem::new().unwrap();

    modem.process_command(ATCommand::SetRegister(3, 99));
    modem.process_command(ATCommand::Reset);

    let responses = modem.process_command(ATCommand::QueryRegister(3));
    match &responses[0] {
        ATResponse::Text(val) => assert_eq!(val, "013"),
        other => panic!("Expected Text response, got {:?}", other),
    }
}

#[test]
fn test_escape_sequence_requires_guard_time() {
    // Guard time is S12 x 20 ms = 1000 ms by default. Three '+' inside
    // the guard window do not leave data mode; three '+' spanning at
    // least the guard time do.
    let mut modem = VirtualModem::new().unwrap();
    modem.process_command(ATCommand::Dial("5551234".to_string()));
    assert_eq!(modem.get_state(), ModemState::Connected);

    // Too fast: tracker resets, still connected.
    assert!(modem.process_data_char(b'+', 0).is_none());
    assert!(modem.process_data_char(b'+', 10).is_none());
    assert!(modem.process_data_char(b'+', 20).is_none());
    assert_eq!(modem.get_state(), ModemState::Connected);

    // Slow enough: the third '+' comes 1500 ms after the first.
    assert!(modem.process_data_char(b'+', 2000).is_none());
    assert!(modem.process_data_char(b'+', 2500).is_none());
    let responses = modem.process_data_char(b'+', 3500).expect("escape should fire");
    assert_eq!(responses, vec![ATResponse::Okay]);
    assert_eq!(modem.get_state(), ModemState::Command);
}

#[test]
fn test_data_bytes_are_queued_for_transmit() {
    let mut modem = VirtualModem::new().unwrap();
    modem.process_command(ATCommand::Dial("5551234".to_string()));

    for (i, b) in b"HELLO".iter().enumerate() {
        assert!(modem.process_data_char(*b, i as u64).is_none());
    }
    assert_eq!(modem.take_tx_buffer(), b"HELLO".to_vec());
    assert_eq!(modem.take_tx_buffer(), Vec::<u8>::new());
}

#[test]
fn test_rx_buffer_round_trip() {
    let mut modem = VirtualModem::new().unwrap();
    modem.push_rx_bytes(&[1, 2, 3]);
    modem.push_rx_bytes(&[4]);
    assert_eq!(modem.take_rx_buffer(), vec![1, 2, 3, 4]);
    assert_eq!(modem.take_rx_buffer(), Vec::<u8>::new());
}

#[test]
fn test_hangup_clears_buffers_and_tracker() {
    let mut modem = VirtualModem::new().unwrap();
    modem.process_command(ATCommand::Dial("5551234".to_string()));
    modem.process_data_char(b'X', 0);
    modem.process_data_char(b'+', 5);

    let responses = modem.process_command(ATCommand::Hangup);
    assert_eq!(responses, vec![ATResponse::Okay]);
    assert_eq!(modem.get_state(), ModemState::Command);
    assert_eq!(modem.take_tx_buffer(), Vec::<u8>::new());
}

#[test]
fn test_info_queries() {
    let mut modem = VirtualModem::new().unwrap();

    let r = modem.process_command(ATCommand::Info("0".to_string()));
    assert_eq!(r, vec![ATResponse::Text("300".to_string())]);

    let r = modem.process_command(ATCommand::Info("1".to_string()));
    assert_eq!(r, vec![ATResponse::Text("OK".to_string())]);

    let r = modem.process_command(ATCommand::Info("4".to_string()));
    assert_eq!(r, vec![ATResponse::Text("Rust Implementation".to_string())]);

    let r = modem.process_command(ATCommand::Info("77".to_string()));
    assert_eq!(r, vec![ATResponse::Text("Unknown info type 77".to_string())]);

    let r = modem.process_command(ATCommand::Info("x".to_string()));
    assert_eq!(r, vec![ATResponse::Text("300".to_string())]);
}

#[test]
fn test_unknown_command_yields_error() {
    let mut modem = VirtualModem::new().unwrap();
    let responses = modem.process_command(ATCommand::Unknown("Q".to_string()));
    assert_eq!(responses, vec![ATResponse::Error]);
    assert_eq!(modem.get_state(), ModemState::Command);
}
