//! Request envelopes: the JSON body and the URL of one function call, stamped
//! with the session id and the encrypted order number.

use vstd::prelude::*;
use crate::text::{ascii_bytes, chars_of, decimal, decimal_chars, push_all, push_decimal, string_of};
use crate::codec::{aes128_cbc_pkcs7, padded_len, EncryptArgs, KeyMaterial};
use crate::counter::{draw_step, SequenceCounter};

verus! {

/// Lowercase hexadecimal digit of `d`, for `d < 16`.
pub open spec fn hex_digit(d: u8) -> char {
    if d < 10 {
        ((d + 48) as u8) as char
    } else {
        ((d + 87) as u8) as char
    }
}

/// Two lowercase hex digits per byte, high nibble first.
pub open spec fn hex_lower(b: Seq<u8>) -> Seq<char> {
    Seq::new(
        2 * b.len(),
        |i: int|
            if i % 2 == 0 {
                hex_digit(b[i / 2] / 16)
            } else {
                hex_digit(b[i / 2] % 16)
            },
    )
}

/// Relies on `hex::encode`: two lowercase hex digits per byte, in order.
#[verifier::external_body]
fn hex_encode(b: &[u8]) -> (r: String)
    ensures
        r@ == hex_lower(b@),
{
    hex::encode(b)
}

/// The order token of order number `order`: its decimal text, encrypted and
/// written in hex.
pub open spec fn order_token(key: Seq<u8>, iv: Seq<u8>, order: nat) -> Seq<char> {
    hex_lower(aes128_cbc_pkcs7(key, iv, ascii_bytes(decimal(order))))
}

/// Computes the order token of `order` under `material`.
pub fn make_order_token(material: &KeyMaterial, order: u32) -> (r: Vec<char>)
    requires
        material.wf(),
    ensures
        r@ == order_token(material.key@, material.iv@, order as nat),
        r@.len() == 2 * padded_len(decimal(order as nat).len()),
{
    let plain = EncryptArgs::from(order);
    let cipher = material.encrypt(&plain);
    let hex = hex_encode(cipher.as_slice());
    chars_of(hex.as_str())
}

/// JSON escape of one character inside a string literal.
pub open spec fn escape_char(c: char) -> Seq<char> {
    if c == '"' {
        seq!['\\', '"']
    } else if c == '\\' {
        seq!['\\', '\\']
    } else if (c as u32) < 32 {
        seq!['\\', 'u', '0', '0', hex_digit(((c as u32) / 16) as u8), hex_digit(((c as u32) % 16) as u8)]
    } else {
        seq![c]
    }
}

/// The contents of a JSON string literal that holds `s`.
pub open spec fn json_escape(s: Seq<char>) -> Seq<char>
    decreases s.len(),
{
    if s.len() == 0 {
        Seq::empty()
    } else {
        json_escape(s.drop_last()) + escape_char(s.last())
    }
}

fn push_escaped_char(out: &mut Vec<char>, c: char)
    ensures
        final(out)@ == old(out)@ + escape_char(c),
{
    let code = c as u32;
    if c == '"' {
        out.push('\\');
        out.push('"');
    } else if c == '\\' {
        out.push('\\');
        out.push('\\');
    } else if code < 32 {
        out.push('\\');
        out.push('u');
        out.push('0');
        out.push('0');
        out.push(hex_char((code / 16) as u8));
        out.push(hex_char((code % 16) as u8));
    } else {
        out.push(c);
    }
    assert(final(out)@ =~= old(out)@ + escape_char(c));
}

fn hex_char(d: u8) -> (r: char)
    requires
        d < 16,
    ensures
        r == hex_digit(d),
{
    if d < 10 {
        (d + 48) as char
    } else {
        (d + 87) as char
    }
}

/// Appends the JSON escape of `s` to `out`.
pub fn push_json_escaped(out: &mut Vec<char>, s: &[char])
    ensures
        final(out)@ == old(out)@ + json_escape(s@),
{
    let mut i: usize = 0;
    while i < s.len()
        invariant
            i <= s@.len(),
            out@ == old(out)@ + json_escape(s@.subrange(0, i as int)),
        decreases s@.len() - i,
    {
        let ghost before = out@;
        push_escaped_char(out, s[i]);
        proof {
            let t = s@.subrange(0, i + 1);
            assert(t.drop_last() =~= s@.subrange(0, i as int));
            assert(t.last() == s@[i as int]);
        }
        i = i + 1;
        assert(out@ =~= old(out)@ + json_escape(s@.subrange(0, i as int)));
    }
    assert(s@.subrange(0, i as int) =~= s@);
}

/// A named remote operation and its fields, pre-formatted as the members of a
/// JSON object (without the braces).
pub struct FunctionCall {
    pub name: String,
    pub fields: String,
}

/// The URL that one call is posted to.
pub open spec fn request_url(root: Seq<char>, session_id: u32, token: Seq<char>) -> Seq<char> {
    root + "/appelfonction/3/"@ + decimal(session_id as nat) + "/"@ + token
}

/// The JSON body of one call.
pub open spec fn request_body(session_id: u32, token: Seq<char>, name: Seq<char>, fields: Seq<char>) -> Seq<char> {
    "{\"session\": "@ + decimal(session_id as nat) + ", \"numeroOrdre\": \""@ + token
        + "\", \"nom\": \""@ + json_escape(name) + "\", \"donneesSec\": {\"donnees\": {"@ + fields
        + "}}}"@
}

/// Where a call goes and what it carries.
pub struct Envelope {
    pub url: String,
    pub body: String,
}

/// Assembles URL and body of a call whose order token is already computed.
pub fn assemble(root: &str, session_id: u32, token: &[char], call: &FunctionCall) -> (r: Envelope)
    ensures
        r.url@ == request_url(root@, session_id, token@),
        r.body@ == request_body(session_id, token@, call.name@, call.fields@),
{
    let id = decimal_chars(session_id);
    let mut url: Vec<char> = chars_of(root);
    push_all(&mut url, chars_of("/appelfonction/3/").as_slice());
    push_all(&mut url, id.as_slice());
    push_all(&mut url, chars_of("/").as_slice());
    push_all(&mut url, token);

    let mut body: Vec<char> = chars_of("{\"session\": ");
    push_all(&mut body, id.as_slice());
    push_all(&mut body, chars_of(", \"numeroOrdre\": \"").as_slice());
    push_all(&mut body, token);
    push_all(&mut body, chars_of("\", \"nom\": \"").as_slice());
    push_json_escaped(&mut body, chars_of(call.name.as_str()).as_slice());
    push_all(&mut body, chars_of("\", \"donneesSec\": {\"donnees\": {").as_slice());
    push_all(&mut body, chars_of(call.fields.as_str()).as_slice());
    push_all(&mut body, chars_of("}}}").as_slice());
    Envelope { url: string_of(url.as_slice()), body: string_of(body.as_slice()) }
}


/// Why no envelope was built.
#[derive(Debug, Clone, Copy, PartialEq, Eq, Structural)]
pub enum EnvelopeError {
    /// Every order number the counter can hand out has been used.
    SequenceExhausted,
}

/// What one session owns: its id, its order counter, the key material of its
/// order tokens and the root URL of the portal.
pub struct Session {
    pub session_id: u32,
    pub sequence: SequenceCounter,
    pub material: KeyMaterial,
    pub portal_root: String,
}

impl Session {
    pub open spec fn wf(&self) -> bool {
        self.material.wf()
    }

    /// A session that has drawn no order number yet.
    pub fn new(session_id: u32, material: KeyMaterial, portal_root: String) -> (r: Session)
        requires
            material.wf(),
        ensures
            r.wf(),
            r.session_id == session_id,
            r.sequence.drawn() == 0,
            r.material == material,
            r.portal_root == portal_root,
    {
        Session { session_id, sequence: SequenceCounter::new(), material, portal_root }
    }

    /// The envelope of `call`: draws the next order number (spent even if the
    /// call is never delivered), encrypts it, and stamps URL and body.
    pub fn build(&mut self, call: &FunctionCall) -> (r: Result<Envelope, EnvelopeError>)
        requires
            old(self).wf(),
        ensures
            final(self).wf(),
            final(self).session_id == old(self).session_id,
            final(self).material == old(self).material,
            final(self).portal_root == old(self).portal_root,
            old(self).sequence.drawn() < u32::MAX <==> r is Ok,
            r is Err ==> final(self).sequence == old(self).sequence,
            r matches Ok(e) ==> ({
                let order = old(self).sequence.drawn() + 1;
                let token = order_token(old(self).material.key@, old(self).material.iv@, order);
                &&& final(self).sequence.drawn() == order
                &&& e.url@ == request_url(old(self).portal_root@, old(self).session_id, token)
                &&& e.body@ == request_body(old(self).session_id, token, call.name@, call.fields@)
            }),
    {
        if !self.sequence.can_draw() {
            return Err(EnvelopeError::SequenceExhausted);
        }
        let order = self.sequence.next();
        let token = make_order_token(&self.material, order);
        Ok(assemble(self.portal_root.as_str(), self.session_id, token.as_slice(), call))
    }
}

} // verus!
