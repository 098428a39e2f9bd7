use basilisk::ansi::parser::{Action, Parser, State};

#[test]
fn parse_print_char() {
    let mut parser = Parser::new();
    let action = parser.advance(b'A');
    assert_eq!(action, Some(Action::Print('A')));
}

#[test]
fn parse_control_codes() {
    let mut parser = Parser::new();
    assert_eq!(parser.advance(b'\n'), Some(Action::Execute(b'\n')));
    assert_eq!(parser.advance(b'\r'), Some(Action::Execute(b'\r')));
    assert_eq!(parser.advance(b'\t'), Some(Action::Execute(b'\t')));
    assert_eq!(parser.advance(0x08), Some(Action::Execute(0x08)));
}

#[test]
fn parse_escape_enters_escape_state() {
    let mut parser = Parser::new();
    assert_eq!(parser.advance(0x1b), None);
    assert_eq!(parser.state, State::Escape);
}

#[test]
fn parse_csi_entry() {
    let mut parser = Parser::new();
    parser.advance(0x1b);
    assert_eq!(parser.advance(b'['), None);
    assert_eq!(parser.state, State::CsiEntry);
}

#[test]
fn parse_csi_cursor_up() {
    let mut parser = Parser::new();
    parser.advance(0x1b);
    parser.advance(b'[');
    parser.advance(b'5');
    let action = parser.advance(b'A');
    assert_eq!(action, Some(Action::CsiDispatch {
        params: vec![5],
        intermediates: vec![],
        action: 'A',
    }));
}

#[test]
fn parse_csi_sgr() {
    let mut parser = Parser::new();
    parser.advance(0x1b);
    parser.advance(b'[');
    parser.advance(b'1');
    parser.advance(b';');
    parser.advance(b'3');
    parser.advance(b'1');
    let action = parser.advance(b'm');
    assert_eq!(action, Some(Action::CsiDispatch {
        params: vec![1, 31],
        intermediates: vec![],
        action: 'm',
    }));
}

#[test]
fn parse_csi_no_params() {
    let mut parser = Parser::new();
    parser.advance(0x1b);
    parser.advance(b'[');
    let action = parser.advance(b'H');
    assert_eq!(action, Some(Action::CsiDispatch {
        params: vec![],
        intermediates: vec![],
        action: 'H',
    }));
}

#[test]
fn parse_osc_title() {
    let mut parser = Parser::new();
    parser.advance(0x1b);
    parser.advance(b']');
    for b in b"0;My Title" {
        parser.advance(*b);
    }
    let action = parser.advance(0x07);
    match action {
        Some(Action::OscDispatch(parts)) => {
            assert_eq!(parts.len(), 2);
            assert_eq!(parts[0], b"0");
            assert_eq!(parts[1], b"My Title");
        }
        _ => panic!("Expected OscDispatch"),
    }
}

#[test]
fn parse_csi_private_intermediate() {
    let mut parser = Parser::new();
    for b in b"\x1b[?25" {
        parser.advance(*b);
    }
    let action = parser.advance(b'l');
    assert_eq!(action, Some(Action::CsiDispatch {
        params: vec![25],
        intermediates: vec![b'?'],
        action: 'l',
    }));
}

#[test]
fn parse_returns_to_ground_after_dispatch() {
    let mut parser = Parser::new();
    for b in b"\x1b[2J" {
        parser.advance(*b);
    }
    assert_eq!(parser.state, State::Ground);
    assert_eq!(parser.advance(b'x'), Some(Action::Print('x')));
}

#[test]
fn osc_string_terminator_prints_nothing() {
    let mut p = Parser::new();
    for &b in &[0x1bu8, b']', b'0', b';'] {
        assert_eq!(p.advance(b), None);
    }
    assert_eq!(p.advance(b'T'), None);
    assert_eq!(p.advance(0x1b), Some(Action::OscDispatch(vec![b"0".to_vec(), b"T".to_vec()])));
    assert_eq!(p.advance(b'\\'), None);
    assert!(p.is_ground());
}
