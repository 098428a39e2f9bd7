//! ANSI/VT escape sequence parser.

use vstd::prelude::*;

verus! {

/// Actions emitted by the parser.
#[derive(Debug, Clone, PartialEq)]
pub enum Action {
    /// Print a character to the terminal.
    Print(char),
    /// Execute a control code (C0/C1) or an escape final byte.
    Execute(u8),
    /// CSI sequence dispatch.
    CsiDispatch { params: Vec<u16>, intermediates: Vec<u8>, action: char },
    /// OSC sequence dispatch (the string split at `;`).
    OscDispatch(Vec<Vec<u8>>),
    /// DCS sequence dispatch.
    DcsDispatch { params: Vec<u16>, intermediates: Vec<u8>, data: Vec<u8> },
}

/// Mathematical form of an action.
pub enum ActionModel {
    Print(char),
    Execute(u8),
    CsiDispatch { params: Seq<u16>, intermediates: Seq<u8>, action: char },
    OscDispatch(Seq<Seq<u8>>),
    DcsDispatch { params: Seq<u16>, intermediates: Seq<u8>, data: Seq<u8> },
}

impl View for Action {
    type V = ActionModel;

    open spec fn view(&self) -> ActionModel {
        match self {
            Action::Print(c) => ActionModel::Print(*c),
            Action::Execute(b) => ActionModel::Execute(*b),
            Action::CsiDispatch { params, intermediates, action } =>
                ActionModel::CsiDispatch { params: params@, intermediates: intermediates@, action: *action },
            Action::OscDispatch(parts) => ActionModel::OscDispatch(parts@.map_values(|p: Vec<u8>| p@)),
            Action::DcsDispatch { params, intermediates, data } =>
                ActionModel::DcsDispatch { params: params@, intermediates: intermediates@, data: data@ },
        }
    }
}

/// Parser states.
#[derive(Debug, Clone, Copy, PartialEq, Eq, Structural)]
pub enum State {
    Ground,
    Escape,
    EscapeIntermediate,
    CsiEntry,
    CsiParam,
    CsiIntermediate,
    OscString,
    DcsEntry,
    DcsParam,
    DcsPassthrough,
}

/// VT parser state machine.
#[derive(Debug)]
pub struct Parser {
    pub state: State,
    pub params: Vec<u16>,
    pub intermediates: Vec<u8>,
    pub osc_data: Vec<u8>,
    pub dcs_data: Vec<u8>,
    pub current_param: u16,
}

/// Mathematical form of the parser.
pub struct ParserModel {
    pub state: State,
    pub params: Seq<u16>,
    pub intermediates: Seq<u8>,
    pub osc_data: Seq<u8>,
    pub dcs_data: Seq<u8>,
    pub current_param: u16,
}

impl View for Parser {
    type V = ParserModel;

    open spec fn view(&self) -> ParserModel {
        ParserModel {
            state: self.state,
            params: self.params@,
            intermediates: self.intermediates@,
            osc_data: self.osc_data@,
            dcs_data: self.dcs_data@,
            current_param: self.current_param,
        }
    }
}

/// `p * 10 + d` saturating at `u16::MAX`.
pub open spec fn accumulate_digit(p: u16, d: u8) -> u16 {
    if p * 10 + d > u16::MAX { u16::MAX } else { (p * 10 + d) as u16 }
}

/// Append a decimal digit to a parameter, saturating at `u16::MAX`.
pub fn accumulate(p: u16, d: u8) -> (r: u16)
    requires d <= 9,
    ensures r == accumulate_digit(p, d),
{
    let v: u32 = (p as u32) * 10 + (d as u32);
    if v > 65535 { 65535 } else { v as u16 }
}

/// The pieces of `data` between `;` separators (empty pieces included).
pub open spec fn split_semicolons(data: Seq<u8>) -> Seq<Seq<u8>>
    decreases data.len(),
{
    if data.len() == 0 {
        seq![Seq::<u8>::empty()]
    } else {
        let rest = split_semicolons(data.drop_last());
        if data.last() == 0x3b {
            rest.push(Seq::<u8>::empty())
        } else {
            rest.update(rest.len() - 1, rest.last().push(data.last()))
        }
    }
}

pub open spec fn with_state(p: ParserModel, s: State) -> ParserModel {
    ParserModel { state: s, ..p }
}

/// One step of the parser: the next model and the action emitted for `byte`.
pub open spec fn parser_step(p: ParserModel, byte: u8) -> (ParserModel, Option<ActionModel>) {
    match p.state {
        State::Ground => {
            if byte == 0x1b { (with_state(p, State::Escape), None) }
            else if byte <= 0x1f { (p, Some(ActionModel::Execute(byte))) }
            else if byte <= 0x7e { (p, Some(ActionModel::Print(byte as char))) }
            else if byte == 0x7f { (p, None) }
            else if byte <= 0x9f { (p, Some(ActionModel::Execute(byte))) }
            else { (p, Some(ActionModel::Print(byte as char))) }
        },
        State::Escape => {
            if byte == 0x5b {
                (ParserModel { state: State::CsiEntry, params: seq![], intermediates: seq![], current_param: 0, ..p }, None)
            } else if byte == 0x5d {
                (ParserModel { state: State::OscString, osc_data: seq![], ..p }, None)
            } else if byte == 0x50 {
                (ParserModel { state: State::DcsEntry, params: seq![], intermediates: seq![], dcs_data: seq![], current_param: 0, ..p }, None)
            } else if 0x20 <= byte <= 0x2f {
                (ParserModel { state: State::EscapeIntermediate, intermediates: p.intermediates.push(byte), ..p }, None)
            } else if byte == 0x5c {
                (with_state(p, State::Ground), None)
            } else if 0x30 <= byte <= 0x7e {
                (with_state(p, State::Ground), Some(ActionModel::Execute(byte)))
            } else {
                (with_state(p, State::Ground), None)
            }
        },
        State::EscapeIntermediate => {
            if 0x20 <= byte <= 0x2f {
                (ParserModel { intermediates: p.intermediates.push(byte), ..p }, None)
            } else if 0x30 <= byte <= 0x7e {
                (with_state(p, State::Ground), Some(ActionModel::Execute(byte)))
            } else {
                (with_state(p, State::Ground), None)
            }
        },
        State::CsiEntry => {
            if 0x30 <= byte <= 0x39 {
                (ParserModel { state: State::CsiParam, current_param: (byte - 0x30) as u16, ..p }, None)
            } else if byte == 0x3b {
                (ParserModel { state: State::CsiParam, params: p.params.push(0), ..p }, None)
            } else if 0x3c <= byte <= 0x3f {
                (ParserModel { intermediates: p.intermediates.push(byte), ..p }, None)
            } else if 0x40 <= byte <= 0x7e {
                (ParserModel { state: State::Ground, params: seq![], intermediates: seq![], ..p },
                 Some(ActionModel::CsiDispatch { params: p.params, intermediates: p.intermediates, action: byte as char }))
            } else {
                (with_state(p, State::Ground), None)
            }
        },
        State::CsiParam => {
            if 0x30 <= byte <= 0x39 {
                (ParserModel { current_param: accumulate_digit(p.current_param, (byte - 0x30) as u8), ..p }, None)
            } else if byte == 0x3b {
                (ParserModel { params: p.params.push(p.current_param), current_param: 0, ..p }, None)
            } else if 0x20 <= byte <= 0x2f {
                (ParserModel { state: State::CsiIntermediate, params: p.params.push(p.current_param), current_param: 0,
                    intermediates: p.intermediates.push(byte), ..p }, None)
            } else if 0x40 <= byte <= 0x7e {
                (ParserModel { state: State::Ground, params: seq![], intermediates: seq![], current_param: 0, ..p },
                 Some(ActionModel::CsiDispatch { params: p.params.push(p.current_param), intermediates: p.intermediates, action: byte as char }))
            } else {
                (with_state(p, State::Ground), None)
            }
        },
        State::CsiIntermediate => {
            if 0x20 <= byte <= 0x2f {
                (ParserModel { intermediates: p.intermediates.push(byte), ..p }, None)
            } else if 0x40 <= byte <= 0x7e {
                (ParserModel { state: State::Ground, params: seq![], intermediates: seq![], ..p },
                 Some(ActionModel::CsiDispatch { params: p.params, intermediates: p.intermediates, action: byte as char }))
            } else {
                (with_state(p, State::Ground), None)
            }
        },
        State::OscString => {
            if byte == 0x07 || byte == 0x9c {
                (with_state(p, State::Ground), Some(ActionModel::OscDispatch(split_semicolons(p.osc_data))))
            } else if byte == 0x1b {
                (with_state(p, State::Escape), Some(ActionModel::OscDispatch(split_semicolons(p.osc_data))))
            } else {
                (ParserModel { osc_data: p.osc_data.push(byte), ..p }, None)
            }
        },
        State::DcsEntry => {
            if 0x30 <= byte <= 0x39 {
                (ParserModel { state: State::DcsParam, current_param: (byte - 0x30) as u16, ..p }, None)
            } else if byte == 0x3b {
                (ParserModel { state: State::DcsParam, params: p.params.push(0), ..p }, None)
            } else if 0x40 <= byte <= 0x7e {
                (with_state(p, State::DcsPassthrough), None)
            } else {
                (with_state(p, State::Ground), None)
            }
        },
        State::DcsParam => {
            if 0x30 <= byte <= 0x39 {
                (ParserModel { current_param: accumulate_digit(p.current_param, (byte - 0x30) as u8), ..p }, None)
            } else if byte == 0x3b {
                (ParserModel { params: p.params.push(p.current_param), current_param: 0, ..p }, None)
            } else if 0x40 <= byte <= 0x7e {
                (ParserModel { state: State::DcsPassthrough, params: p.params.push(p.current_param), current_param: 0, ..p }, None)
            } else {
                (with_state(p, State::Ground), None)
            }
        },
        State::DcsPassthrough => {
            if byte == 0x9c || byte == 0x1b {
                (ParserModel { state: if byte == 0x1b { State::Escape } else { State::Ground },
                    params: seq![], intermediates: seq![], dcs_data: seq![], ..p },
                 Some(ActionModel::DcsDispatch { params: p.params, intermediates: p.intermediates, data: p.dcs_data }))
            } else {
                (ParserModel { dcs_data: p.dcs_data.push(byte), ..p }, None)
            }
        },
    }
}

pub open spec fn action_view(a: Option<Action>) -> Option<ActionModel> {
    match a {
        Some(x) => Some(x@),
        None => None,
    }
}

/// The parser models are equal field by field.
pub open spec fn same_model(a: ParserModel, b: ParserModel) -> bool {
    &&& a.state == b.state
    &&& a.params == b.params
    &&& a.intermediates == b.intermediates
    &&& a.osc_data == b.osc_data
    &&& a.dcs_data == b.dcs_data
    &&& a.current_param == b.current_param
}

/// The model reached after feeding a whole byte sequence.
pub open spec fn parser_run(p: ParserModel, bytes: Seq<u8>) -> ParserModel
    decreases bytes.len(),
{
    if bytes.len() == 0 { p } else { parser_step(parser_run(p, bytes.drop_last()), bytes.last()).0 }
}

/// The model after a character that is not ASCII arrives inside a
/// sequence: its UTF-8 bytes join an OSC or DCS string; elsewhere it is
/// dropped.
pub open spec fn char_absorbed(p: ParserModel, c: char) -> ParserModel {
    if p.state == State::OscString {
        ParserModel { osc_data: p.osc_data + vstd::utf8::encode_utf8(seq![c]), ..p }
    } else if p.state == State::DcsPassthrough {
        ParserModel { dcs_data: p.dcs_data + vstd::utf8::encode_utf8(seq![c]), ..p }
    } else {
        p
    }
}

pub open spec fn initial_model() -> ParserModel {
    ParserModel { state: State::Ground, params: seq![], intermediates: seq![], osc_data: seq![], dcs_data: seq![], current_param: 0 }
}

impl Default for Parser {
    fn default() -> (p: Self)
        ensures same_model(p@, initial_model()),
    {
        Self::new()
    }
}

/// Split bytes at `;` into owned pieces.
pub fn split_at_semicolons(data: &[u8]) -> (parts: Vec<Vec<u8>>)
    ensures parts@.map_values(|v: Vec<u8>| v@) == split_semicolons(data@),
{
    let mut parts: Vec<Vec<u8>> = Vec::new();
    parts.push(Vec::new());
    let mut i: usize = 0;
    assert(data@.take(0) =~= Seq::<u8>::empty());
    assert(parts@.map_values(|v: Vec<u8>| v@) =~= split_semicolons(data@.take(0)));
    while i < data.len()
        invariant
            0 <= i <= data.len(),
            parts@.len() >= 1,
            parts@.map_values(|v: Vec<u8>| v@) == split_semicolons(data@.take(i as int)),
        decreases data.len() - i,
    {
        let b = data[i];
        let ghost prev = parts@.map_values(|v: Vec<u8>| v@);
        assert(data@.take(i + 1).drop_last() =~= data@.take(i as int));
        assert(data@.take(i + 1).last() == b);
        if b == 0x3b {
            parts.push(Vec::new());
            assert(parts@.map_values(|v: Vec<u8>| v@) =~= prev.push(Seq::<u8>::empty()));
        } else {
            let last = parts.len() - 1;
            let ghost old_parts = parts@;
            parts[last].push(b);
            assert(parts@ == old_parts.update(last as int, parts@[last as int]));
            assert(parts@.map_values(|v: Vec<u8>| v@) =~= prev.update(prev.len() - 1, prev.last().push(b)));
        }
        i = i + 1;
    }
    assert(data@.take(data.len() as int) =~= data@);
    parts
}

impl Parser {
    pub fn new() -> (p: Self)
        ensures same_model(p@, initial_model()),
    {
        Parser {
            state: State::Ground,
            params: Vec::new(),
            intermediates: Vec::new(),
            osc_data: Vec::new(),
            dcs_data: Vec::new(),
            current_param: 0,
        }
    }

    /// Whether the parser is in its ground state.
    pub fn is_ground(&self) -> (b: bool)
        ensures b == (self.state == State::Ground),
    {
        self.state == State::Ground
    }

    /// Feed one byte.
    pub fn advance(&mut self, byte: u8) -> (a: Option<Action>)
        ensures
            same_model(final(self)@, parser_step(old(self)@, byte).0),
            action_view(a) == parser_step(old(self)@, byte).1,
    {
        match self.state {
            State::Ground => self.ground(byte),
            State::Escape => self.escape(byte),
            State::EscapeIntermediate => self.escape_intermediate(byte),
            State::CsiEntry => self.csi_entry(byte),
            State::CsiParam => self.csi_param(byte),
            State::CsiIntermediate => self.csi_intermediate(byte),
            State::OscString => self.osc_string(byte),
            State::DcsEntry => self.dcs_entry(byte),
            State::DcsParam => self.dcs_param(byte),
            State::DcsPassthrough => self.dcs_passthrough(byte),
        }
    }

    /// Feed a decoded character. In the ground state nothing happens and the
    /// caller prints the character itself. Inside a sequence an ASCII
    /// character is fed as its byte; another character is fed as its UTF-8
    /// bytes into an OSC or DCS string and ignored elsewhere.
    pub fn advance_char(&mut self, c: char) -> (a: Option<Action>)
        ensures
            old(self).state == State::Ground ==> a.is_none() && same_model(final(self)@, old(self)@),
            old(self).state != State::Ground && (c as u32) < 0x80 ==>
                same_model(final(self)@, parser_step(old(self)@, c as u8).0) && action_view(a) == parser_step(old(self)@, c as u8).1,
            old(self).state != State::Ground && (c as u32) >= 0x80 ==> a.is_none()
                && same_model(final(self)@, char_absorbed(old(self)@, c)),
    {
        if self.state == State::Ground {
            return None;
        }
        if (c as u32) < 0x80 {
            return self.advance(c as u32 as u8);
        }
        if self.state == State::OscString || self.state == State::DcsPassthrough {
            let bytes = crate::text::char_utf8_bytes(c);
            let mut i: usize = 0;
            while i < bytes.len()
                invariant
                    0 <= i <= bytes.len(),
                    self.state == State::OscString || self.state == State::DcsPassthrough,
                    self.state == old(self).state,
                    self.params@ == old(self).params@,
                    self.intermediates@ == old(self).intermediates@,
                    self.current_param == old(self).current_param,
                    self.state == State::OscString ==> self.osc_data@ == old(self).osc_data@ + bytes@.take(i as int)
                        && self.dcs_data@ == old(self).dcs_data@,
                    self.state == State::DcsPassthrough ==> self.dcs_data@ == old(self).dcs_data@ + bytes@.take(i as int)
                        && self.osc_data@ == old(self).osc_data@,
                decreases bytes.len() - i,
            {
                if self.state == State::OscString {
                    self.osc_data.push(bytes[i]);
                } else {
                    self.dcs_data.push(bytes[i]);
                }
                proof {
                    assert(bytes@.take(i + 1) =~= bytes@.take(i as int).push(bytes@[i as int]));
                }
                i = i + 1;
            }
            assert(bytes@.take(i as int) =~= bytes@);
        }
        None
    }

    fn ground(&mut self, byte: u8) -> (a: Option<Action>)
        requires old(self).state == State::Ground,
        ensures
            same_model(final(self)@, parser_step(old(self)@, byte).0),
            action_view(a) == parser_step(old(self)@, byte).1,
    {
        if byte == 0x1b {
            self.state = State::Escape;
            None
        } else if byte <= 0x1f {
            Some(Action::Execute(byte))
        } else if byte <= 0x7e {
            Some(Action::Print(byte as char))
        } else if byte == 0x7f {
            None
        } else if byte <= 0x9f {
            Some(Action::Execute(byte))
        } else {
            Some(Action::Print(byte as char))
        }
    }

    fn escape(&mut self, byte: u8) -> (a: Option<Action>)
        requires old(self).state == State::Escape,
        ensures
            same_model(final(self)@, parser_step(old(self)@, byte).0),
            action_view(a) == parser_step(old(self)@, byte).1,
    {
        if byte == 0x5b {
            self.state = State::CsiEntry;
            self.params.clear();
            self.intermediates.clear();
            self.current_param = 0;
            None
        } else if byte == 0x5d {
            self.state = State::OscString;
            self.osc_data.clear();
            None
        } else if byte == 0x50 {
            self.state = State::DcsEntry;
            self.params.clear();
            self.intermediates.clear();
            self.dcs_data.clear();
            self.current_param = 0;
            None
        } else if 0x20 <= byte && byte <= 0x2f {
            self.state = State::EscapeIntermediate;
            self.intermediates.push(byte);
            None
        } else if byte == 0x5c {
            self.state = State::Ground;
            None
        } else if 0x30 <= byte && byte <= 0x7e {
            self.state = State::Ground;
            Some(Action::Execute(byte))
        } else {
            self.state = State::Ground;
            None
        }
    }

    fn escape_intermediate(&mut self, byte: u8) -> (a: Option<Action>)
        requires old(self).state == State::EscapeIntermediate,
        ensures
            same_model(final(self)@, parser_step(old(self)@, byte).0),
            action_view(a) == parser_step(old(self)@, byte).1,
    {
        if 0x20 <= byte && byte <= 0x2f {
            self.intermediates.push(byte);
            None
        } else if 0x30 <= byte && byte <= 0x7e {
            self.state = State::Ground;
            Some(Action::Execute(byte))
        } else {
            self.state = State::Ground;
            None
        }
    }

    /// Hand over the collected CSI parameters and intermediates, leaving them empty.
    fn take_csi(&mut self, action: char) -> (a: Action)
        ensures
            a@ == (ActionModel::CsiDispatch { params: old(self).params@, intermediates: old(self).intermediates@, action: action }),
            final(self).params@ == Seq::<u16>::empty(),
            final(self).intermediates@ == Seq::<u8>::empty(),
            final(self).state == old(self).state,
            final(self).osc_data == old(self).osc_data,
            final(self).dcs_data == old(self).dcs_data,
            final(self).current_param == old(self).current_param,
    {
        let mut params: Vec<u16> = Vec::new();
        let mut intermediates: Vec<u8> = Vec::new();
        std::mem::swap(&mut params, &mut self.params);
        std::mem::swap(&mut intermediates, &mut self.intermediates);
        Action::CsiDispatch { params, intermediates, action }
    }

    fn csi_entry(&mut self, byte: u8) -> (a: Option<Action>)
        requires old(self).state == State::CsiEntry,
        ensures
            same_model(final(self)@, parser_step(old(self)@, byte).0),
            action_view(a) == parser_step(old(self)@, byte).1,
    {
        if 0x30 <= byte && byte <= 0x39 {
            self.state = State::CsiParam;
            self.current_param = (byte - 0x30) as u16;
            None
        } else if byte == 0x3b {
            self.params.push(0);
            self.state = State::CsiParam;
            None
        } else if 0x3c <= byte && byte <= 0x3f {
            self.intermediates.push(byte);
            None
        } else if 0x40 <= byte && byte <= 0x7e {
            self.state = State::Ground;
            Some(self.take_csi(byte as char))
        } else {
            self.state = State::Ground;
            None
        }
    }

    fn csi_param(&mut self, byte: u8) -> (a: Option<Action>)
        requires old(self).state == State::CsiParam,
        ensures
            same_model(final(self)@, parser_step(old(self)@, byte).0),
            action_view(a) == parser_step(old(self)@, byte).1,
    {
        if 0x30 <= byte && byte <= 0x39 {
            self.current_param = accumulate(self.current_param, byte - 0x30);
            None
        } else if byte == 0x3b {
            self.params.push(self.current_param);
            self.current_param = 0;
            None
        } else if 0x20 <= byte && byte <= 0x2f {
            self.params.push(self.current_param);
            self.current_param = 0;
            self.state = State::CsiIntermediate;
            self.intermediates.push(byte);
            None
        } else if 0x40 <= byte && byte <= 0x7e {
            self.params.push(self.current_param);
            self.current_param = 0;
            self.state = State::Ground;
            Some(self.take_csi(byte as char))
        } else {
            self.state = State::Ground;
            None
        }
    }

    fn csi_intermediate(&mut self, byte: u8) -> (a: Option<Action>)
        requires old(self).state == State::CsiIntermediate,
        ensures
            same_model(final(self)@, parser_step(old(self)@, byte).0),
            action_view(a) == parser_step(old(self)@, byte).1,
    {
        if 0x20 <= byte && byte <= 0x2f {
            self.intermediates.push(byte);
            None
        } else if 0x40 <= byte && byte <= 0x7e {
            self.state = State::Ground;
            Some(self.take_csi(byte as char))
        } else {
            self.state = State::Ground;
            None
        }
    }

    fn osc_string(&mut self, byte: u8) -> (a: Option<Action>)
        requires old(self).state == State::OscString,
        ensures
            same_model(final(self)@, parser_step(old(self)@, byte).0),
            action_view(a) == parser_step(old(self)@, byte).1,
    {
        if byte == 0x07 || byte == 0x9c || byte == 0x1b {
            self.state = if byte == 0x1b { State::Escape } else { State::Ground };
            let parts = split_at_semicolons(self.osc_data.as_slice());
            Some(Action::OscDispatch(parts))
        } else {
            self.osc_data.push(byte);
            None
        }
    }

    fn dcs_entry(&mut self, byte: u8) -> (a: Option<Action>)
        requires old(self).state == State::DcsEntry,
        ensures
            same_model(final(self)@, parser_step(old(self)@, byte).0),
            action_view(a) == parser_step(old(self)@, byte).1,
    {
        if 0x30 <= byte && byte <= 0x39 {
            self.state = State::DcsParam;
            self.current_param = (byte - 0x30) as u16;
            None
        } else if byte == 0x3b {
            self.params.push(0);
            self.state = State::DcsParam;
            None
        } else if 0x40 <= byte && byte <= 0x7e {
            self.state = State::DcsPassthrough;
            None
        } else {
            self.state = State::Ground;
            None
        }
    }

    fn dcs_param(&mut self, byte: u8) -> (a: Option<Action>)
        requires old(self).state == State::DcsParam,
        ensures
            same_model(final(self)@, parser_step(old(self)@, byte).0),
            action_view(a) == parser_step(old(self)@, byte).1,
    {
        if 0x30 <= byte && byte <= 0x39 {
            self.current_param = accumulate(self.current_param, byte - 0x30);
            None
        } else if byte == 0x3b {
            self.params.push(self.current_param);
            self.current_param = 0;
            None
        } else if 0x40 <= byte && byte <= 0x7e {
            self.params.push(self.current_param);
            self.current_param = 0;
            self.state = State::DcsPassthrough;
            None
        } else {
            self.state = State::Ground;
            None
        }
    }

    fn dcs_passthrough(&mut self, byte: u8) -> (a: Option<Action>)
        requires old(self).state == State::DcsPassthrough,
        ensures
            same_model(final(self)@, parser_step(old(self)@, byte).0),
            action_view(a) == parser_step(old(self)@, byte).1,
    {
        if byte == 0x9c || byte == 0x1b {
            self.state = if byte == 0x1b { State::Escape } else { State::Ground };
            let mut params: Vec<u16> = Vec::new();
            let mut intermediates: Vec<u8> = Vec::new();
            let mut data: Vec<u8> = Vec::new();
            std::mem::swap(&mut params, &mut self.params);
            std::mem::swap(&mut intermediates, &mut self.intermediates);
            std::mem::swap(&mut data, &mut self.dcs_data);
            Some(Action::DcsDispatch { params, intermediates, data })
        } else {
            self.dcs_data.push(byte);
            None
        }
    }
}

/// Every dispatch returns the parser to the ground state with no pending
/// parameters or intermediates; a string ended by ESC leaves it in the escape
/// state instead, where the `\` of the string terminator (ESC `\`) then
/// returns it to the ground state.
pub proof fn lemma_dispatch_returns_to_ground(p: ParserModel, byte: u8)
    requires
        parser_step(p, byte).1 matches Some(a) && (a is CsiDispatch || a is OscDispatch || a is DcsDispatch),
    ensures
        byte != 0x1b ==> parser_step(p, byte).0.state == State::Ground,
        byte == 0x1b ==> parser_step(p, byte).0.state == State::Escape
            && parser_step(parser_step(p, byte).0, 0x5c) == (with_state(parser_step(p, byte).0, State::Ground), None::<ActionModel>),
        parser_step(p, byte).1 matches Some(a) && (a is CsiDispatch || a is DcsDispatch) ==>
            parser_step(p, byte).0.params.len() == 0 && parser_step(p, byte).0.intermediates.len() == 0,
{
}

/// ESC always leaves a control sequence: from the ground state it starts
/// one, and in a string it dispatches the string and starts the terminator,
/// whose `\` then ends it with nothing printed.
pub proof fn lemma_escape_aborts_or_terminates(p: ParserModel)
    ensures
        p.state == State::Ground ==> parser_step(p, 0x1b).0.state == State::Escape,
        (p.state == State::OscString || p.state == State::DcsPassthrough) ==> {
            &&& parser_step(p, 0x1b).0.state == State::Escape
            &&& parser_step(p, 0x1b).1.is_some()
            &&& parser_step(parser_step(p, 0x1b).0, 0x5c).0.state == State::Ground
            &&& parser_step(parser_step(p, 0x1b).0, 0x5c).1.is_none()
        },
{
}

/// In the ground state every printable ASCII byte is printed as itself and the
/// parser stays in the ground state.
pub proof fn lemma_ground_prints(p: ParserModel, byte: u8)
    requires
        p.state == State::Ground,
        0x20 <= byte <= 0x7e,
    ensures
        parser_step(p, byte).0.state == State::Ground,
        parser_step(p, byte).1 == Some(ActionModel::Print(byte as char)),
{
}

} // verus!
