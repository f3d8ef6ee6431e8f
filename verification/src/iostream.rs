//! Reading whitespace-separated tokens from a byte stream, one byte at a
//! time: the decisions of the reader, apart from the reading itself. The
//! bytes are UTF-8: characters are decoded to tell white space, and the
//! token's bytes are decoded as text (invalid sequences replaced).

use vstd::prelude::*;
use crate::net::codec::{from_utf8_lossy, utf8_lossy};
use crate::text::{char_from_u32, char_is_whitespace, is_scalar_value, unicode_white_space};

verus! {

/// What the token reader does after a byte or the end of input.
pub enum TokenStep {
    /// Read another byte.
    More,
    /// The token is complete.
    Done(String),
    /// The input ended before any token began.
    AtEnd,
}

/// What one step of the reader gives, with the token's bytes for `Done`.
pub enum Feed {
    More,
    Done(Seq<u8>),
    AtEnd,
}

/// How many bytes the UTF-8 sequence that starts with `lead` has; 1 for a
/// byte that starts none (a continuation byte or an invalid one).
pub open spec fn seq_len(lead: u8) -> nat {
    if 0xC0 <= lead < 0xE0 {
        2
    } else if 0xE0 <= lead < 0xF0 {
        3
    } else if 0xF0 <= lead < 0xF8 {
        4
    } else {
        1
    }
}

/// Whether `b` continues a UTF-8 sequence.
pub open spec fn is_continuation(b: u8) -> bool {
    0x80 <= b < 0xC0
}

/// The code point that a complete sequence of two to four bytes encodes.
pub open spec fn seq_code(p: Seq<u8>) -> u32 {
    if p.len() == 2 {
        (((p[0] as u32) & 0x1F) << 6u32) | ((p[1] as u32) & 0x3F)
    } else if p.len() == 3 {
        (((p[0] as u32) & 0x0F) << 12u32) | (((p[1] as u32) & 0x3F) << 6u32) | ((p[2] as u32) & 0x3F)
    } else {
        (((p[0] as u32) & 0x07) << 18u32) | (((p[1] as u32) & 0x3F) << 12u32) | (((p[2] as u32) & 0x3F)
            << 6u32) | ((p[3] as u32) & 0x3F)
    }
}

/// The smallest code point that a sequence of `n` bytes may encode.
pub open spec fn seq_min(n: nat) -> u32 {
    if n == 2 {
        0x80
    } else if n == 3 {
        0x800
    } else {
        0x10000
    }
}

/// Whether a complete multi-byte sequence is a well-formed encoding of a
/// white-space character.
pub open spec fn seq_is_space(p: Seq<u8>) -> bool {
    &&& 2 <= p.len() <= 4
    &&& seq_code(p) >= seq_min(p.len())
    &&& is_scalar_value(seq_code(p))
    &&& unicode_white_space(seq_code(p) as char)
}

/// The end of a token at white space: nothing yet gathered means the white
/// space is skipped; a complete token is handed out and the reader starts
/// empty again.
pub open spec fn at_space(tok: Seq<u8>) -> (Seq<u8>, Seq<u8>, Feed) {
    if tok.len() == 0 {
        (tok, Seq::empty(), Feed::More)
    } else {
        (Seq::empty(), Seq::empty(), Feed::Done(tok))
    }
}

/// A byte read with no sequence pending: an ASCII byte is its character
/// (white space ends the token), a byte that starts a sequence waits for
/// the rest, and any other byte joins the token as it is.
pub open spec fn fresh_byte(tok: Seq<u8>, b: u8) -> (Seq<u8>, Seq<u8>, Feed) {
    if b < 0x80 {
        if unicode_white_space(b as char) {
            at_space(tok)
        } else {
            (tok.push(b), Seq::empty(), Feed::More)
        }
    } else if seq_len(b) == 1 {
        (tok.push(b), Seq::empty(), Feed::More)
    } else {
        (tok, seq![b], Feed::More)
    }
}

/// One step of the reader, from the token's bytes `tok` and the bytes
/// `pend` of a sequence not yet complete, for a byte or the end of input:
/// the new bytes, the new pending bytes, and what the reader does. A
/// complete sequence that encodes white space ends the token; any other
/// joins it. A sequence broken by a byte that does not continue it joins
/// the token as it is, and the byte is read afresh. At the end of input
/// the pending bytes join the token.
pub open spec fn feed_spec(tok: Seq<u8>, pend: Seq<u8>, byte: Option<u8>) -> (Seq<u8>, Seq<u8>, Feed) {
    match byte {
        None => {
            let t = tok + pend;
            if t.len() == 0 {
                (Seq::empty(), Seq::empty(), Feed::AtEnd)
            } else {
                (Seq::empty(), Seq::empty(), Feed::Done(t))
            }
        },
        Some(b) => if pend.len() == 0 {
            fresh_byte(tok, b)
        } else if is_continuation(b) {
            let p = pend.push(b);
            if p.len() < seq_len(p[0]) {
                (tok, p, Feed::More)
            } else if seq_is_space(p) {
                at_space(tok)
            } else {
                (tok + p, Seq::empty(), Feed::More)
            }
        } else {
            fresh_byte(tok + pend, b)
        },
    }
}

/// The state of reading one token: the bytes gathered so far, and those of
/// a character whose sequence is not complete yet.
pub struct TokenScan {
    token: Vec<u8>,
    pending: Vec<u8>,
}

impl TokenScan {
    /// The bytes of the token gathered so far.
    pub closed spec fn bytes(&self) -> Seq<u8> {
        self.token@
    }

    /// The bytes of a character not yet complete.
    pub closed spec fn pending(&self) -> Seq<u8> {
        self.pending@
    }

    /// A reader before any byte.
    pub fn new() -> (r: Self)
        ensures
            r.bytes() == Seq::<u8>::empty(),
            r.pending() == Seq::<u8>::empty(),
    {
        TokenScan { token: Vec::new(), pending: Vec::new() }
    }

    fn fresh(&mut self, b: u8) -> (r: TokenStep)
        ensures
            ({
                let (t, p, f) = fresh_byte(old(self).bytes(), b);
                &&& final(self).bytes() == t
                &&& final(self).pending() == p
                &&& step_agrees(r, f)
            }),
    {
        if b < 0x80 {
            if char_is_whitespace(b as char) {
                self.pending = Vec::new();
                self.space()
            } else {
                self.token.push(b);
                self.pending = Vec::new();
                TokenStep::More
            }
        } else if b >= 0xF8 || b < 0xC0 {
            self.token.push(b);
            self.pending = Vec::new();
            TokenStep::More
        } else {
            let mut p: Vec<u8> = Vec::new();
            p.push(b);
            self.pending = p;
            proof {
                assert(self.pending@ =~= seq![b]);
            }
            TokenStep::More
        }
    }

    fn space(&mut self) -> (r: TokenStep)
        ensures
            ({
                let (t, p, f) = at_space(old(self).bytes());
                &&& final(self).bytes() == t
                &&& final(self).pending() == p
                &&& step_agrees(r, f)
            }),
    {
        self.pending = Vec::new();
        if self.token.len() == 0 {
            TokenStep::More
        } else {
            let t = from_utf8_lossy(self.token.as_slice());
            self.token = Vec::new();
            TokenStep::Done(t)
        }
    }

    /// Takes one byte (`Some`) or the end of input (`None`), as
    /// [`feed_spec`] says: white space before a token is skipped and white
    /// space after one ends it; any other character joins it. A complete
    /// token is its bytes decoded as UTF-8, invalid sequences replaced.
    pub fn feed(&mut self, byte: Option<u8>) -> (r: TokenStep)
        ensures
            ({
                let (t, p, f) = feed_spec(old(self).bytes(), old(self).pending(), byte);
                &&& final(self).bytes() == t
                &&& final(self).pending() == p
                &&& step_agrees(r, f)
            }),
    {
        match byte {
            None => {
                let mut i: usize = 0;
                let ghost t0 = self.token@;
                let ghost p0 = self.pending@;
                while i < self.pending.len()
                    invariant
                        i <= self.pending.len(),
                        self.token@ == t0 + self.pending@.take(i as int),
                        self.pending@ == p0,
                    decreases self.pending.len() - i,
                {
                    let x = self.pending[i];
                    self.token.push(x);
                    i = i + 1;
                    proof {
                        assert(self.token@ =~= t0 + self.pending@.take(i as int));
                    }
                }
                proof {
                    assert(self.pending@.take(i as int) =~= self.pending@);
                }
                self.pending = Vec::new();
                if self.token.len() == 0 {
                    TokenStep::AtEnd
                } else {
                    let t = from_utf8_lossy(self.token.as_slice());
                    self.token = Vec::new();
                    TokenStep::Done(t)
                }
            },
            Some(b) => {
                if self.pending.len() == 0 {
                    return self.fresh(b);
                }
                if 0x80 <= b && b < 0xC0 {
                    self.pending.push(b);
                    let lead = self.pending[0];
                    let need: usize = if 0xC0 <= lead && lead < 0xE0 {
                        2
                    } else if 0xE0 <= lead && lead < 0xF0 {
                        3
                    } else if 0xF0 <= lead && lead < 0xF8 {
                        4
                    } else {
                        1
                    };
                    if self.pending.len() < need {
                        return TokenStep::More;
                    }
                    let n = self.pending.len();
                    let mut space = false;
                    if 2 <= n && n <= 4 {
                        let p = &self.pending;
                        let code: u32 = if n == 2 {
                            (((p[0] as u32) & 0x1F) << 6u32) | ((p[1] as u32) & 0x3F)
                        } else if n == 3 {
                            (((p[0] as u32) & 0x0F) << 12u32) | (((p[1] as u32) & 0x3F) << 6u32)
                                | ((p[2] as u32) & 0x3F)
                        } else {
                            (((p[0] as u32) & 0x07) << 18u32) | (((p[1] as u32) & 0x3F) << 12u32)
                                | (((p[2] as u32) & 0x3F) << 6u32) | ((p[3] as u32) & 0x3F)
                        };
                        let min: u32 = if n == 2 { 0x80 } else if n == 3 { 0x800 } else { 0x10000 };
                        if code >= min {
                            match char_from_u32(code) {
                                Some(c) => {
                                    space = char_is_whitespace(c);
                                },
                                None => {},
                            }
                        }
                        assert(code == seq_code(self.pending@));
                    }
                    if space {
                        return self.space();
                    }
                    let mut i: usize = 0;
                    let ghost t0 = self.token@;
                let ghost p0 = self.pending@;
                    while i < self.pending.len()
                        invariant
                            i <= self.pending.len(),
                            self.token@ == t0 + self.pending@.take(i as int),
                            self.pending@ == p0,
                        decreases self.pending.len() - i,
                    {
                        let x = self.pending[i];
                        self.token.push(x);
                        i = i + 1;
                        proof {
                            assert(self.token@ =~= t0 + self.pending@.take(i as int));
                        }
                    }
                    proof {
                        assert(self.pending@.take(i as int) =~= self.pending@);
                    }
                    self.pending = Vec::new();
                    TokenStep::More
                } else {
                    let mut i: usize = 0;
                    let ghost t0 = self.token@;
                let ghost p0 = self.pending@;
                    while i < self.pending.len()
                        invariant
                            i <= self.pending.len(),
                            self.token@ == t0 + self.pending@.take(i as int),
                            self.pending@ == p0,
                        decreases self.pending.len() - i,
                    {
                        let x = self.pending[i];
                        self.token.push(x);
                        i = i + 1;
                        proof {
                            assert(self.token@ =~= t0 + self.pending@.take(i as int));
                        }
                    }
                    proof {
                        assert(self.pending@.take(i as int) =~= self.pending@);
                    }
                    self.pending = Vec::new();
                    self.fresh(b)
                }
            },
        }
    }
}

/// Whether an exec step is the step of the specification: a complete token
/// is its bytes decoded as UTF-8, invalid sequences replaced.
pub open spec fn step_agrees(r: TokenStep, f: Feed) -> bool {
    match f {
        Feed::More => r is More,
        Feed::AtEnd => r is AtEnd,
        Feed::Done(bs) => r matches TokenStep::Done(t) && t@ == utf8_lossy(bs),
    }
}

} // verus!
