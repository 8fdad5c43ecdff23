use std::str::FromStr;
use vstd::prelude::*;

verus! {

/// The key code that evdev's table of key names gives to `name`, if it holds the name.
pub uninterp spec fn key_code_of(name: Seq<char>) -> Option<u16>;

/// Relies on evdev's `KeyCode::from_str`: a lookup of the name in evdev's table of key
/// names, which depends on the name alone.
#[verifier::external_body]
fn lookup_key_code(name: &str) -> (r: Option<u16>)
    ensures
        r == key_code_of(name@),
{
    match evdev::KeyCode::from_str(name) {
        Ok(key) => Some(key.code()),
        Err(_) => None,
    }
}

/// The prefix that every button name carries.
pub open spec fn button_prefix() -> Seq<char> {
    seq!['B', 'T', 'N', '_']
}

pub open spec fn has_button_prefix(s: Seq<char>) -> bool {
    s.len() >= 4 && s.subrange(0, 4) == button_prefix()
}

/// The code of a pointer button, as evdev numbers keys.
#[derive(Clone, Copy, Debug, PartialEq, Eq, Hash, Structural)]
pub struct Button {
    pub code: u16,
}

/// A button name that was refused: it is no evdev key name, or not the name of a button.
#[derive(Debug, PartialEq, Eq)]
pub struct ButtonParseError {
    pub value: String,
}

impl ButtonParseError {
    /// The text that reports the refused name.
    pub fn message(&self) -> (r: String)
        ensures
            r@ == "unexpected button value "@ + self.value@,
    {
        let prefix = "unexpected button value ".to_owned();
        let v: &str = &self.value;
        prefix.concat(v)
    }
}

impl Button {
    pub fn from_code(code: u16) -> (r: Button)
        ensures
            r.code == code,
    {
        Button { code }
    }

    pub fn code(&self) -> (r: u16)
        ensures
            r == self.code,
    {
        self.code
    }

    /// Reads a button from its symbolic evdev name, such as `BTN_LEFT`. The name must
    /// be in evdev's table and begin with `BTN_`.
    pub fn parse(name: &str) -> (r: Result<Button, ButtonParseError>)
        ensures
            match r {
                Ok(b) => key_code_of(name@) == Some(b.code) && has_button_prefix(name@),
                Err(e) => e.value@ == name@ && (key_code_of(name@) is None || !has_button_prefix(
                    name@,
                )),
            },
    {
        Button::from_lookup(name, lookup_key_code(name))
    }

    /// The button named `name`, given `code`, the code that evdev's table holds for the
    /// name (if any): it is a button when the table holds the name and the name begins
    /// with `BTN_`; otherwise the name is refused.
    pub fn from_lookup(name: &str, code: Option<u16>) -> (r: Result<Button, ButtonParseError>)
        ensures
            match r {
                Ok(b) => code == Some(b.code) && has_button_prefix(name@),
                Err(e) => e.value@ == name@ && (code is None || !has_button_prefix(name@)),
            },
    {
        let prefixed = starts_with_button_prefix(name);
        match code {
            Some(c) => {
                if prefixed {
                    Ok(Button { code: c })
                } else {
                    Err(ButtonParseError { value: name.to_owned() })
                }
            },
            None => Err(ButtonParseError { value: name.to_owned() }),
        }
    }
}

fn starts_with_button_prefix(s: &str) -> (r: bool)
    ensures
        r == has_button_prefix(s@),
{
    let n = s.unicode_len();
    if n < 4 {
        return false;
    }
    let b0 = s.get_char(0);
    let b1 = s.get_char(1);
    let b2 = s.get_char(2);
    let b3 = s.get_char(3);
    let r = b0 == 'B' && b1 == 'T' && b2 == 'N' && b3 == '_';
    assert(r ==> s@.subrange(0, 4) =~= button_prefix());
    assert(s@.subrange(0, 4) == button_prefix() ==> s@.subrange(0, 4)[3] == '_' && s@.subrange(
        0,
        4,
    )[0] == 'B' && s@.subrange(0, 4)[1] == 'T' && s@.subrange(0, 4)[2] == 'N');
    r
}

} // verus!
