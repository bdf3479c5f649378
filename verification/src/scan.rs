//! The field-value validator: a finite-state byte classifier that drives
//! wire parsing, unquoting, and quoted-value construction.
//!
//! The state machine is stated once, as the spec function [`step`]; the
//! executable [`Validator`] follows it byte by byte and is proved to.

use vstd::prelude::*;

use crate::chars::{is_ctext, is_opaque_spec, is_qtext, map_allows, qtext, ctext, is_opaque,
    map_lookup, CharMap, CR, DQUOTE, LPAREN, RPAREN, COMMA, BACKSLASH};

verus! {

/// How a field's values are validated: the base byte class for plain text,
/// and whether comments, quoted strings and comma-separated lists are
/// recognized.
#[derive(Clone, Copy, PartialEq, Eq, Structural, Debug)]
pub struct Config {
    pub map: CharMap,
    pub comments: bool,
    pub quotes: bool,
    pub commas: bool,
}

impl Config {
    /// Whether a byte may appear in a stored value under this
    /// configuration: in the base class, or a parenthesis when comments are
    /// on, or a double quote when quotes are on.
    pub open spec fn byte_valid(self, b: u8) -> bool {
        map_allows(self.map, b) || (self.comments && (b == LPAREN || b == RPAREN)) || (self.quotes
            && b == DQUOTE)
    }

    pub fn validate_byte(&self, byte: u8) -> (r: bool)
        ensures
            r == self.byte_valid(byte),
    {
        map_lookup(self.map, byte) || (self.comments && (byte == LPAREN || byte == RPAREN)) || (
        self.quotes && byte == DQUOTE)
    }
}

/// Why a byte was rejected, or that it ended the value.
#[derive(Clone, Copy, PartialEq, Eq, Structural, Debug)]
pub enum ValidationError {
    Quote,
    Comment,
    Token,
    Terminated,
}

impl ValidationError {
    pub fn as_str(self) -> (r: &'static str)
    {
        match self {
            ValidationError::Quote => "invalid quoted text",
            ValidationError::Comment => "invalid comment character",
            ValidationError::Token => "invalid token",
            ValidationError::Terminated => "value terminated",
        }
    }
}

/// What a valid byte contributes to the value: plain content, raw content
/// at or above 0x80, or pure syntax (quote marks, backslashes,
/// parentheses) that unquoting strips.
#[derive(Clone, Copy, PartialEq, Eq, Structural, Debug)]
pub enum ByteClass {
    Visible,
    Opaque,
    Syntax,
}

/// The validator's state: root, inside a quoted string (possibly right
/// after a backslash), or inside `depth` nested comments. A quoted string
/// opened inside a comment keeps the comment depth.
pub struct VState {
    pub quoted: bool,
    pub backslash: bool,
    pub depth: nat,
}

/// The state a validator starts in, and the only state a complete value may
/// end in.
pub open spec fn init_state() -> VState {
    VState { quoted: false, backslash: false, depth: 0 }
}

/// One transition of the state machine.
pub enum Step {
    /// The byte is accepted with the given class; the machine moves on.
    Accept { class: ByteClass, next: VState },
    /// The byte ends the value: an unquoted comma of a list, or a carriage
    /// return.
    End,
    /// The byte violates the grammar.
    Reject { err: ValidationError },
}

/// The per-byte transition, given the configuration and the current state.
pub open spec fn step(cfg: Config, st: VState, b: u8) -> Step {
    if st.quoted {
        if st.backslash {
            Step::Accept {
                class: ByteClass::Visible,
                next: VState { quoted: true, backslash: false, depth: st.depth },
            }
        } else if b == BACKSLASH {
            Step::Accept {
                class: ByteClass::Syntax,
                next: VState { quoted: true, backslash: true, depth: st.depth },
            }
        } else if b == DQUOTE {
            Step::Accept {
                class: ByteClass::Syntax,
                next: VState { quoted: false, backslash: false, depth: st.depth },
            }
        } else if !is_qtext(b) {
            Step::Reject { err: ValidationError::Quote }
        } else if is_opaque_spec(b) {
            Step::Accept { class: ByteClass::Opaque, next: st }
        } else {
            Step::Accept { class: ByteClass::Visible, next: st }
        }
    } else if st.depth > 0 {
        if is_ctext(b) {
            Step::Accept { class: ByteClass::Visible, next: st }
        } else if cfg.quotes && b == DQUOTE {
            Step::Accept {
                class: ByteClass::Syntax,
                next: VState { quoted: true, backslash: false, depth: st.depth },
            }
        } else if b == LPAREN {
            Step::Accept {
                class: ByteClass::Syntax,
                next: VState { quoted: false, backslash: st.backslash, depth: st.depth + 1 },
            }
        } else if b == RPAREN {
            Step::Accept {
                class: ByteClass::Syntax,
                next: VState { quoted: false, backslash: st.backslash, depth: (st.depth - 1) as nat },
            }
        } else if is_opaque_spec(b) {
            Step::Accept { class: ByteClass::Opaque, next: st }
        } else {
            Step::Reject { err: ValidationError::Comment }
        }
    } else {
        if map_allows(cfg.map, b) {
            Step::Accept { class: ByteClass::Visible, next: st }
        } else if cfg.quotes && b == DQUOTE {
            Step::Accept {
                class: ByteClass::Syntax,
                next: VState { quoted: true, backslash: false, depth: 0 },
            }
        } else if cfg.comments && b == LPAREN {
            Step::Accept {
                class: ByteClass::Syntax,
                next: VState { quoted: false, backslash: st.backslash, depth: 1 },
            }
        } else if (cfg.commas && b == COMMA) || b == CR {
            Step::End
        } else {
            Step::Reject { err: ValidationError::Token }
        }
    }
}

/// The state after running the machine over `s[i..]` from state `st`, or
/// `None` if some byte is rejected or ends the value.
pub open spec fn walk(cfg: Config, s: Seq<u8>, st: VState, i: int) -> Option<VState>
    decreases s.len() - i,
{
    if i < 0 || i >= s.len() {
        Some(st)
    } else {
        match step(cfg, st, s[i]) {
            Step::Accept { class, next } => walk(cfg, s, next, i + 1),
            Step::End => None,
            Step::Reject { err } => None,
        }
    }
}

/// The executable validator. It mirrors [`step`] exactly; once a byte is
/// rejected it is poisoned and re-reports the same error for every later
/// byte.
pub struct Validator {
    quoted: bool,
    backslash: bool,
    depth: usize,
    config: Config,
    error: Option<ValidationError>,
}

impl Validator {
    pub closed spec fn state(&self) -> VState {
        VState { quoted: self.quoted, backslash: self.backslash, depth: self.depth as nat }
    }

    pub closed spec fn cfg(&self) -> Config {
        self.config
    }

    pub closed spec fn err(&self) -> Option<ValidationError> {
        self.error
    }

    pub fn new(config: Config) -> (r: Self)
        ensures
            r.state() == init_state(),
            r.cfg() == config,
            r.err() is None,
    {
        Self { quoted: false, backslash: false, depth: 0, config, error: None }
    }

    /// Classify one byte and move the machine, per [`step`]. A poisoned
    /// validator repeats its error and does not move.
    pub fn advance(&mut self, b: u8) -> (r: Result<ByteClass, ValidationError>)
        requires
            old(self).state().depth < usize::MAX,
        ensures
            final(self).cfg() == old(self).cfg(),
            match old(self).err() {
                Some(e) => r == Err::<ByteClass, ValidationError>(e) && final(self).state() == old(
                    self,
                ).state() && final(self).err() == old(self).err(),
                None => match step(old(self).cfg(), old(self).state(), b) {
                    Step::Accept { class, next } => r == Ok::<ByteClass, ValidationError>(class)
                        && final(self).state() == next && final(self).err() is None,
                    Step::End => r == Err::<ByteClass, ValidationError>(
                        ValidationError::Terminated,
                    ) && final(self).state() == old(self).state() && final(self).err() == Some(
                        ValidationError::Terminated,
                    ),
                    Step::Reject { err } => r == Err::<ByteClass, ValidationError>(err)
                        && final(self).state() == old(self).state() && final(self).err() == Some(err),
                },
            },
    {
        if let Some(e) = self.error {
            return Err(e);
        }
        if self.quoted {
            if self.backslash {
                self.backslash = false;
                Ok(ByteClass::Visible)
            } else if b == BACKSLASH {
                self.backslash = true;
                Ok(ByteClass::Syntax)
            } else if b == DQUOTE {
                self.quoted = false;
                Ok(ByteClass::Syntax)
            } else if !qtext(b) {
                self.error = Some(ValidationError::Quote);
                Err(ValidationError::Quote)
            } else if is_opaque(b) {
                Ok(ByteClass::Opaque)
            } else {
                Ok(ByteClass::Visible)
            }
        } else if self.depth > 0 {
            if ctext(b) {
                Ok(ByteClass::Visible)
            } else if self.config.quotes && b == DQUOTE {
                self.quoted = true;
                self.backslash = false;
                Ok(ByteClass::Syntax)
            } else if b == LPAREN {
                self.depth = self.depth + 1;
                Ok(ByteClass::Syntax)
            } else if b == RPAREN {
                self.depth = self.depth - 1;
                Ok(ByteClass::Syntax)
            } else if is_opaque(b) {
                Ok(ByteClass::Opaque)
            } else {
                self.error = Some(ValidationError::Comment);
                Err(ValidationError::Comment)
            }
        } else {
            if map_lookup(self.config.map, b) {
                Ok(ByteClass::Visible)
            } else if self.config.quotes && b == DQUOTE {
                self.quoted = true;
                self.backslash = false;
                Ok(ByteClass::Syntax)
            } else if self.config.comments && b == LPAREN {
                self.depth = 1;
                Ok(ByteClass::Syntax)
            } else if (self.config.commas && b == COMMA) || b == CR {
                self.error = Some(ValidationError::Terminated);
                Err(ValidationError::Terminated)
            } else {
                self.error = Some(ValidationError::Token);
                Err(ValidationError::Token)
            }
        }
    }

    pub fn quoted(&self) -> (r: bool)
        ensures
            r == self.state().quoted,
    {
        self.quoted
    }

    pub fn commented(&self) -> (r: bool)
        ensures
            r == (self.state().depth > 0),
    {
        self.depth > 0
    }

    /// Neither inside a quoted string nor inside a comment.
    pub fn in_root_scope(&self) -> (r: bool)
        ensures
            r == (!self.state().quoted && self.state().depth == 0),
    {
        !(self.quoted() || self.commented())
    }
}

} // verus!
