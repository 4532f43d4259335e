//! The add-tunnel form and its validation.

use vstd::prelude::*;

use crate::chars::{dec_chars, is_digit_char, parse_u16, pop_char, push_char, spec_parse_u16, spec_pop, u16_string};

verus! {

/// The field of the add-tunnel form that has focus.
#[derive(Debug, Clone, Copy, PartialEq, Eq, Structural)]
pub enum ModalField {
    LocalPort,
    RemoteHost,
    RemotePort,
}

/// The add-tunnel form: three text fields, a focus, and a field-level
/// error message.
#[derive(Debug, Clone)]
pub struct AddModalState {
    pub local_port: String,
    pub remote_host: String,
    pub remote_port: String,
    pub active_field: ModalField,
    pub error_message: Option<String>,
}

/// Mathematical image of an `AddModalState`.
#[verifier::ext_equal]
pub struct ModalV {
    pub local_port: Seq<char>,
    pub remote_host: Seq<char>,
    pub remote_port: Seq<char>,
    pub active_field: ModalField,
    pub error_message: Option<Seq<char>>,
}

impl View for AddModalState {
    type V = ModalV;

    open spec fn view(&self) -> ModalV {
        ModalV {
            local_port: self.local_port@,
            remote_host: self.remote_host@,
            remote_port: self.remote_port@,
            active_field: self.active_field,
            error_message: match &self.error_message {
                Some(m) => Some(m@),
                None => None,
            },
        }
    }
}

/// The field after `f` in tab order.
pub open spec fn spec_next_field(f: ModalField) -> ModalField {
    match f {
        ModalField::LocalPort => ModalField::RemoteHost,
        ModalField::RemoteHost => ModalField::RemotePort,
        ModalField::RemotePort => ModalField::LocalPort,
    }
}

/// A fresh add-tunnel form.
pub open spec fn spec_fresh_modal() -> ModalV {
    ModalV {
        local_port: Seq::empty(),
        remote_host: "localhost"@,
        remote_port: Seq::empty(),
        active_field: ModalField::LocalPort,
        error_message: None,
    }
}

/// The form after typing `c` into the focused field.
pub open spec fn spec_modal_input(m: ModalV, c: char) -> ModalV {
    match m.active_field {
        ModalField::LocalPort => ModalV {
            local_port: if is_digit_char(c) {
                m.local_port.push(c)
            } else {
                m.local_port
            },
            error_message: None,
            ..m
        },
        ModalField::RemoteHost => ModalV {
            remote_host: m.remote_host.push(c),
            error_message: None,
            ..m
        },
        ModalField::RemotePort => ModalV {
            remote_port: if is_digit_char(c) {
                m.remote_port.push(c)
            } else {
                m.remote_port
            },
            error_message: None,
            ..m
        },
    }
}

/// The form after deleting the last character of the focused field.
pub open spec fn spec_modal_backspace(m: ModalV) -> ModalV {
    match m.active_field {
        ModalField::LocalPort => ModalV {
            local_port: spec_pop(m.local_port),
            error_message: None,
            ..m
        },
        ModalField::RemoteHost => ModalV {
            remote_host: spec_pop(m.remote_host),
            error_message: None,
            ..m
        },
        ModalField::RemotePort => ModalV {
            remote_port: spec_pop(m.remote_port),
            error_message: None,
            ..m
        },
    }
}

/// What validation decides on a form: the form afterwards (an error set on
/// the first violation) and the parsed values on success.
pub open spec fn spec_modal_validate(m: ModalV) -> (ModalV, Option<(u16, Seq<char>, u16)>) {
    match spec_valid_port(m.local_port) {
        None => (ModalV { error_message: Some("Invalid local port"@), ..m }, None),
        Some(lp) => {
            if m.remote_host.len() == 0 {
                (ModalV { error_message: Some("Remote host cannot be empty"@), ..m }, None)
            } else {
                match spec_valid_port(m.remote_port) {
                    None => (ModalV { error_message: Some("Invalid remote port"@), ..m }, None),
                    Some(rp) => (m, Some((lp, m.remote_host, rp))),
                }
            }
        },
    }
}

/// The form after learning that the probed local port is taken.
pub open spec fn spec_port_busy(m: ModalV, port: u16) -> ModalV {
    ModalV {
        error_message: Some("Port "@ + dec_chars(port as int) + " is already in use"@),
        ..m
    }
}

/// A port string accepted by validation: parses and is positive.
pub open spec fn spec_valid_port(s: Seq<char>) -> Option<u16> {
    match spec_parse_u16(s) {
        Some(p) => if p > 0 {
            Some(p)
        } else {
            None
        },
        None => None,
    }
}

impl AddModalState {
    /// A fresh form: empty ports, remote host prefilled with "localhost",
    /// focus on the local port, no error.
    pub fn new() -> (r: AddModalState)
        ensures
            r@ == spec_fresh_modal(),
    {
        let r = AddModalState {
            local_port: String::new(),
            remote_host: "localhost".to_owned(),
            remote_port: String::new(),
            active_field: ModalField::LocalPort,
            error_message: None,
        };
        proof {
            assert(r@ =~= spec_fresh_modal());
        }
        r
    }

    /// Move focus to the next field.
    pub fn next_field(&mut self)
        ensures
            final(self)@ == (ModalV { active_field: spec_next_field(old(self)@.active_field), ..old(
                self,
            )@ }),
    {
        self.active_field = match self.active_field {
            ModalField::LocalPort => ModalField::RemoteHost,
            ModalField::RemoteHost => ModalField::RemotePort,
            ModalField::RemotePort => ModalField::LocalPort,
        };
        proof {
            assert(self@ =~= ModalV { active_field: spec_next_field(old(self)@.active_field), ..old(
                self,
            )@ });
        }
    }

    /// Type one character into the focused field; port fields take only
    /// digits. Any edit clears the error message.
    pub fn input(&mut self, c: char)
        ensures
            final(self)@ == spec_modal_input(old(self)@, c),
    {
        let u = c as u32;
        let digit = 48 <= u && u <= 57;
        match self.active_field {
            ModalField::LocalPort => {
                if digit {
                    push_char(&mut self.local_port, c);
                }
            },
            ModalField::RemoteHost => {
                push_char(&mut self.remote_host, c);
            },
            ModalField::RemotePort => {
                if digit {
                    push_char(&mut self.remote_port, c);
                }
            },
        }
        self.error_message = None;
        proof {
            assert(self@ =~= spec_modal_input(old(self)@, c));
        }
    }

    /// Delete the last character of the focused field. Any edit clears the
    /// error message.
    pub fn backspace(&mut self)
        ensures
            final(self)@ == spec_modal_backspace(old(self)@),
    {
        match self.active_field {
            ModalField::LocalPort => {
                pop_char(&mut self.local_port);
            },
            ModalField::RemoteHost => {
                pop_char(&mut self.remote_host);
            },
            ModalField::RemotePort => {
                pop_char(&mut self.remote_port);
            },
        }
        self.error_message = None;
        proof {
            assert(self@ =~= spec_modal_backspace(old(self)@));
        }
    }

    /// Check the form fields: the ports must parse as positive integers and
    /// the remote host must be non-empty. The first violation sets the error
    /// message and nothing is returned; otherwise the parsed values come
    /// back and the form is unchanged. Whether the local port is free on
    /// this machine is probed by the caller afterwards.
    pub fn validate(&mut self) -> (r: Option<(u16, String, u16)>)
        ensures
            final(self)@ == spec_modal_validate(old(self)@).0,
            (match spec_modal_validate(old(self)@).1 {
                Some((lp, h, rp)) => {
                    &&& r matches Some((a, hh, b))
                    &&& a == lp
                    &&& hh@ == h
                    &&& b == rp
                },
                None => r is None,
            }),
    {
        let lp = match parse_u16(self.local_port.as_str()) {
            Some(p) if p > 0 => p,
            _ => {
                self.error_message = Some("Invalid local port".to_owned());
                proof {
                    assert(self@ =~= ModalV {
                        error_message: Some("Invalid local port"@),
                        ..old(self)@
                    });
                }
                return None;
            },
        };
        if self.remote_host.unicode_len() == 0 {
            self.error_message = Some("Remote host cannot be empty".to_owned());
            proof {
                assert(self@ =~= ModalV {
                    error_message: Some("Remote host cannot be empty"@),
                    ..old(self)@
                });
            }
            return None;
        }
        let rp = match parse_u16(self.remote_port.as_str()) {
            Some(p) if p > 0 => p,
            _ => {
                self.error_message = Some("Invalid remote port".to_owned());
                proof {
                    assert(self@ =~= ModalV {
                        error_message: Some("Invalid remote port"@),
                        ..old(self)@
                    });
                }
                return None;
            },
        };
        let host = self.remote_host.as_str().to_owned();
        proof {
            assert(self@ =~= old(self)@);
        }
        Some((lp, host, rp))
    }

    /// Report that the probed local port is taken: sets the form error
    /// "Port N is already in use".
    pub fn set_port_in_use(&mut self, port: u16)
        ensures
            final(self)@ == spec_port_busy(old(self)@, port),
    {
        let mut m = String::new();
        m.append("Port ");
        let d = u16_string(port);
        m.append(d.as_str());
        m.append(" is already in use");
        proof {
            assert(m@ =~= "Port "@ + dec_chars(port as int) + " is already in use"@);
        }
        self.error_message = Some(m);
        proof {
            assert(self@ =~= spec_port_busy(old(self)@, port));
        }
    }
}

} // verus!
