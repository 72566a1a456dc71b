//! The handshake of a protocol client, as a state machine: the client decides
//! what to send next from what the transport reports, and the transport (which
//! owns the network) performs each action and reports back.

use vstd::prelude::*;
use base64::Engine;
use crate::text::{chars_of, push_all, string_of};
use crate::codec::{encrypt, encrypt_spec, md5_digest, EncryptArgs, EncryptionError, KeyMaterial};
use crate::bootstrap::{extract_session_id, session_id_of, BootstrapError};
use crate::envelope::{json_escape, order_token, push_json_escaped, request_body, request_url, Envelope, FunctionCall, Session};

verus! {

/// Root URL of the demonstration portal.
pub const DEMO_PORTAL_ROOT: &'static str = "https://demo.index-education.net/pronote";

/// Name of the call that declares the client's parameters.
pub const PARAMETERS_CALL: &'static str = "FonctionParametres";

/// Name of the call that identifies the user.
pub const IDENTIFICATION_CALL: &'static str = "Identification";

/// Identifier of the demonstration account.
pub const DEMO_IDENTIFIER: &'static str = "demonstration";

/// The base64 alphabet of the standard engine.
pub open spec fn b64_char(v: nat) -> char {
    if v < 26 {
        ((v + 65) as u8) as char
    } else if v < 52 {
        ((v + 71) as u8) as char
    } else if v < 62 {
        ((v - 4) as u8) as char
    } else if v == 62 {
        '+'
    } else {
        '/'
    }
}

/// Standard base64 with `=` padding: each group of three bytes becomes four
/// characters, and a last group of one or two bytes is padded to four.
pub open spec fn base64_standard(b: Seq<u8>) -> Seq<char>
    decreases b.len(),
{
    if b.len() == 0 {
        Seq::empty()
    } else if b.len() == 1 {
        seq![b64_char(b[0] as nat / 4), b64_char((b[0] as nat % 4) * 16), '=', '=']
    } else if b.len() == 2 {
        seq![
            b64_char(b[0] as nat / 4),
            b64_char((b[0] as nat % 4) * 16 + b[1] as nat / 16),
            b64_char((b[1] as nat % 16) * 4),
            '=',
        ]
    } else {
        seq![
            b64_char(b[0] as nat / 4),
            b64_char((b[0] as nat % 4) * 16 + b[1] as nat / 16),
            b64_char((b[1] as nat % 16) * 4 + b[2] as nat / 64),
            b64_char(b[2] as nat % 64),
        ] + base64_standard(b.subrange(3, b.len() as int))
    }
}

/// Relies on base64's `STANDARD` engine (`Engine::encode`): standard alphabet,
/// with padding.
#[verifier::external_body]
fn base64_encode(b: &[u8]) -> (r: String)
    ensures
        r@ == base64_standard(b@),
{
    base64::engine::general_purpose::STANDARD.encode(b)
}

/// Relies on `rand::random`: sixteen bytes from the thread-local generator.
/// Nothing is known of their value.
#[verifier::external_body]
fn random_block() -> (r: [u8; 16]) {
    rand::random::<[u8; 16]>()
}

/// Who identifies during the handshake.
pub struct Credentials {
    pub identifier: String,
}

impl Credentials {
    /// The demonstration account.
    pub fn demo() -> (r: Credentials)
        ensures
            r.identifier@ == DEMO_IDENTIFIER@,
    {
        Credentials { identifier: DEMO_IDENTIFIER.to_owned() }
    }
}

/// Where the handshake stands.
#[derive(Debug, Clone, Copy, PartialEq, Eq, Structural)]
pub enum HandshakeState {
    Uninitialized,
    SessionKnown,
    ParametersSent,
    Identified,
}

/// Why the handshake stopped.
#[derive(Debug, PartialEq, Eq)]
pub enum ConnectError {
    /// The transport failed; the text says why.
    Transport(String),
    /// The entry page gave no session id.
    Bootstrap(BootstrapError),
    /// The session has used every order number.
    SequenceExhausted,
    /// The event does not fit the state the handshake is in.
    ProtocolState,
}

/// What the transport reports.
pub enum Event {
    /// Begin the handshake.
    Start,
    /// The entry page was fetched; its text.
    EntryPage(String),
    /// The last posted call completed, whatever its status.
    Posted,
    /// The last action could not be carried out; why.
    TransportFailed(String),
}

/// What the transport is to do next.
pub enum Action {
    /// Fetch the entry page at `url`.
    Fetch { url: String },
    /// Post this envelope.
    Post(Envelope),
    /// The handshake is complete.
    Connected,
    /// The handshake stopped.
    Failed(ConnectError),
}

/// The URL of the entry page below `root`.
pub open spec fn entry_url(root: Seq<char>) -> Seq<char> {
    root + "/eleve.html"@
}

/// Fields of the call that declares the client's parameters.
pub open spec fn parameters_fields(iv: Seq<u8>) -> Seq<char> {
    "\"Uuid\": \""@ + base64_standard(iv) + "\", \"identifiantNav\": \"\""@
}

/// Fields of the identification call.
pub open spec fn identification_fields(identifier: Seq<char>) -> Seq<char> {
    "\"genreConnexion\": 0, \"genreEspace\": 3, \"identifiant\": \""@ + json_escape(identifier)
        + "\", \"pourENT\": false, \"enConnexionAuto\": false, \"demandeConnexionAuto\": false, \"demandeConnexionAppliMobile\": false, \"demandeConnexionAppliMobileJeton\": false, \"uuidAppliMobile\": \"\", \"loginTokenSAV\": \"\""@
}

/// A protocol client: the handshake state, the session, the client's own
/// key and IV, and the credentials it identifies with.
pub struct APIClient {
    pub state: HandshakeState,
    pub session: Session,
    pub key_aes: [u8; 16],
    pub iv_aes: [u8; 16],
    pub credentials: Credentials,
}

impl APIClient {
    pub open spec fn wf(&self) -> bool {
        self.session.wf()
    }

    /// `a` posts call `name` with `fields` as order number `order` of this
    /// client's session.
    pub open spec fn posts(&self, a: Action, order: nat, name: Seq<char>, fields: Seq<char>) -> bool {
        let token = order_token(self.session.material.key@, self.session.material.iv@, order);
        &&& a matches Action::Post(e)
        &&& e.url@ == request_url(self.session.portal_root@, self.session.session_id, token)
        &&& e.body@ == request_body(self.session.session_id, token, name, fields)
    }

    /// The parts that no step changes.
    pub open spec fn same_setup(&self, other: &APIClient) -> bool {
        &&& self.session.material == other.session.material
        &&& self.session.portal_root == other.session.portal_root
        &&& self.key_aes == other.key_aes
        &&& self.iv_aes == other.iv_aes
        &&& self.credentials == other.credentials
    }

    /// A client of the demonstration portal with a fresh random IV, a zero
    /// key, the initial key material and the demonstration account.
    pub fn new() -> (r: APIClient)
        ensures
            r.wf(),
            r.state == HandshakeState::Uninitialized,
            r.session.session_id == 0,
            r.session.sequence.drawn() == 0,
            r.session.material.key@ == md5_digest(Seq::empty()),
            r.session.material.iv@ == md5_digest(Seq::empty()),
            r.session.portal_root@ == DEMO_PORTAL_ROOT@,
            r.key_aes@ == Seq::new(16, |i: int| 0u8),
            r.credentials.identifier@ == DEMO_IDENTIFIER@,
    {
        let r = APIClient::with_config(
            DEMO_PORTAL_ROOT.to_owned(),
            KeyMaterial::initial(),
            random_block(),
            Credentials::demo(),
        );
        r
    }

    /// A client of the portal at `portal_root`, whose order tokens use
    /// `material`, whose IV is `iv_aes`, and who identifies with `credentials`.
    pub fn with_config(portal_root: String, material: KeyMaterial, iv_aes: [u8; 16], credentials: Credentials) -> (r: APIClient)
        requires
            material.wf(),
        ensures
            r.wf(),
            r.state == HandshakeState::Uninitialized,
            r.session.session_id == 0,
            r.session.sequence.drawn() == 0,
            r.session.material == material,
            r.session.portal_root == portal_root,
            r.key_aes@ == Seq::new(16, |i: int| 0u8),
            r.iv_aes == iv_aes,
            r.credentials == credentials,
    {
        let r = APIClient {
            state: HandshakeState::Uninitialized,
            session: Session::new(0, material, portal_root),
            key_aes: [0u8; 16],
            iv_aes,
            credentials,
        };
        assert(r.key_aes@ =~= Seq::new(16, |i: int| 0u8));
        r
    }

    /// Encrypts `data` with the session's key material.
    pub fn encrypt(&self, data: &EncryptArgs) -> (r: Result<Vec<u8>, EncryptionError>)
        ensures
            r matches Ok(c) ==> encrypt_spec(self.session.material.key@, self.session.material.iv@, data.payload())
                == Ok::<Seq<u8>, EncryptionError>(c@),
            r matches Err(e) ==> encrypt_spec(self.session.material.key@, self.session.material.iv@, data.payload())
                == Err::<Seq<u8>, EncryptionError>(e),
    {
        encrypt(self.session.material.key.as_slice(), self.session.material.iv.as_slice(), data)
    }

    /// The call that declares the client's parameters.
    fn parameters_call(&self) -> (r: FunctionCall)
        ensures
            r.name@ == PARAMETERS_CALL@,
            r.fields@ == parameters_fields(self.iv_aes@),
    {
        let mut fields = chars_of("\"Uuid\": \"");
        let iv = base64_encode(self.iv_aes.as_slice());
        push_all(&mut fields, chars_of(iv.as_str()).as_slice());
        push_all(&mut fields, chars_of("\", \"identifiantNav\": \"\"").as_slice());
        FunctionCall { name: PARAMETERS_CALL.to_owned(), fields: string_of(fields.as_slice()) }
    }

    /// The identification call.
    fn identification_call(&self) -> (r: FunctionCall)
        ensures
            r.name@ == IDENTIFICATION_CALL@,
            r.fields@ == identification_fields(self.credentials.identifier@),
    {
        let mut fields = chars_of("\"genreConnexion\": 0, \"genreEspace\": 3, \"identifiant\": \"");
        push_json_escaped(&mut fields, chars_of(self.credentials.identifier.as_str()).as_slice());
        push_all(
            &mut fields,
            chars_of(
                "\", \"pourENT\": false, \"enConnexionAuto\": false, \"demandeConnexionAuto\": false, \"demandeConnexionAppliMobile\": false, \"demandeConnexionAppliMobileJeton\": false, \"uuidAppliMobile\": \"\", \"loginTokenSAV\": \"\"",
            ).as_slice(),
        );
        FunctionCall { name: IDENTIFICATION_CALL.to_owned(), fields: string_of(fields.as_slice()) }
    }

    /// Builds the envelope of `call` and turns it into the next action.
    fn post(&mut self, call: &FunctionCall) -> (r: Action)
        requires
            old(self).wf(),
        ensures
            final(self).wf(),
            final(self).same_setup(old(self)),
            final(self).state == old(self).state,
            final(self).session.session_id == old(self).session.session_id,
            old(self).session.sequence.drawn() < u32::MAX ==> old(self).posts(
                r,
                old(self).session.sequence.drawn() + 1,
                call.name@,
                call.fields@,
            ) && final(self).session.sequence.drawn() == old(self).session.sequence.drawn() + 1,
            old(self).session.sequence.drawn() >= u32::MAX ==> (r matches Action::Failed(
                ConnectError::SequenceExhausted,
            )) && final(self).session.sequence == old(self).session.sequence,
    {
        match self.session.build(call) {
            Ok(e) => Action::Post(e),
            Err(_) => Action::Failed(ConnectError::SequenceExhausted),
        }
    }

    /// The URL of the entry page.
    pub fn entry_url(&self) -> (r: String)
        ensures
            r@ == entry_url(self.session.portal_root@),
    {
        let mut url = chars_of(self.session.portal_root.as_str());
        push_all(&mut url, chars_of("/eleve.html").as_slice());
        string_of(url.as_slice())
    }

    /// One step of the handshake: takes what the transport reports and says
    /// what it is to do next.
    /// - `Start` in `Uninitialized` asks for the entry page.
    /// - The entry page in `Uninitialized` sets the session id and moves to
    ///   `SessionKnown`, then posts the parameters call; or, when the page
    ///   holds no session id, fails with that error and changes nothing.
    /// - `Posted` in `SessionKnown` moves to `ParametersSent` and posts the
    ///   identification call; `Posted` in `ParametersSent` moves to
    ///   `Identified`.
    /// - A transport failure fails with it and changes nothing.
    /// - Any other event fails with `ProtocolState` and changes nothing.
    pub fn step(&mut self, event: Event) -> (r: Action)
        requires
            old(self).wf(),
        ensures
            final(self).wf(),
            final(self).same_setup(old(self)),
            match event {
                Event::TransportFailed(m) => {
                    &&& r matches Action::Failed(ConnectError::Transport(n)) && n == m
                    &&& *final(self) == *old(self)
                },
                Event::Start => if old(self).state == HandshakeState::Uninitialized {
                    &&& r matches Action::Fetch { url } && url@ == entry_url(old(self).session.portal_root@)
                    &&& *final(self) == *old(self)
                } else {
                    &&& r matches Action::Failed(ConnectError::ProtocolState)
                    &&& *final(self) == *old(self)
                },
                Event::EntryPage(page) => if old(self).state != HandshakeState::Uninitialized {
                    &&& r matches Action::Failed(ConnectError::ProtocolState)
                    &&& *final(self) == *old(self)
                } else {
                    match session_id_of(page@) {
                        Err(e) => {
                            &&& r matches Action::Failed(ConnectError::Bootstrap(f)) && f == e
                            &&& *final(self) == *old(self)
                        },
                        Ok(id) => {
                            &&& final(self).state == HandshakeState::SessionKnown
                            &&& final(self).session.session_id == id
                            &&& old(self).session.sequence.drawn() < u32::MAX ==> {
                                &&& final(self).posts(
                                    r,
                                    old(self).session.sequence.drawn() + 1,
                                    PARAMETERS_CALL@,
                                    parameters_fields(old(self).iv_aes@),
                                )
                                &&& final(self).session.sequence.drawn() == old(self).session.sequence.drawn() + 1
                            }
                            &&& old(self).session.sequence.drawn() >= u32::MAX ==> (r matches Action::Failed(
                                ConnectError::SequenceExhausted,
                            ))
                        },
                    }
                },
                Event::Posted => if old(self).state == HandshakeState::SessionKnown {
                    &&& final(self).state == HandshakeState::ParametersSent
                    &&& final(self).session.session_id == old(self).session.session_id
                    &&& old(self).session.sequence.drawn() < u32::MAX ==> {
                        &&& old(self).posts(
                            r,
                            old(self).session.sequence.drawn() + 1,
                            IDENTIFICATION_CALL@,
                            identification_fields(old(self).credentials.identifier@),
                        )
                        &&& final(self).session.sequence.drawn() == old(self).session.sequence.drawn() + 1
                    }
                    &&& old(self).session.sequence.drawn() >= u32::MAX ==> (r matches Action::Failed(
                        ConnectError::SequenceExhausted,
                    ))
                } else if old(self).state == HandshakeState::ParametersSent {
                    &&& r matches Action::Connected
                    &&& final(self).state == HandshakeState::Identified
                    &&& final(self).session == old(self).session
                } else {
                    &&& r matches Action::Failed(ConnectError::ProtocolState)
                    &&& *final(self) == *old(self)
                },
            },
    {
        match event {
            Event::TransportFailed(m) => Action::Failed(ConnectError::Transport(m)),
            Event::Start => {
                if self.state == HandshakeState::Uninitialized {
                    Action::Fetch { url: self.entry_url() }
                } else {
                    Action::Failed(ConnectError::ProtocolState)
                }
            },
            Event::EntryPage(page) => {
                if self.state != HandshakeState::Uninitialized {
                    return Action::Failed(ConnectError::ProtocolState);
                }
                match extract_session_id(page.as_str()) {
                    Err(e) => Action::Failed(ConnectError::Bootstrap(e)),
                    Ok(id) => {
                        self.session.session_id = id;
                        self.state = HandshakeState::SessionKnown;
                        let call = self.parameters_call();
                        self.post(&call)
                    },
                }
            },
            Event::Posted => {
                if self.state == HandshakeState::SessionKnown {
                    self.state = HandshakeState::ParametersSent;
                    let call = self.identification_call();
                    self.post(&call)
                } else if self.state == HandshakeState::ParametersSent {
                    self.state = HandshakeState::Identified;
                    Action::Connected
                } else {
                    Action::Failed(ConnectError::ProtocolState)
                }
            },
        }
    }
}

} // verus!
