//! A host: its identity and paths, and the request token that admits one
//! compute request at a time.
use vstd::prelude::*;
use vstd::std_specs::cmp::PartialEqSpecImpl;
use rand::Rng;
use crate::error::Error;
use crate::path::{spec_join, join};
use crate::text::{decimal, to_decimal};

verus! {

/// Frequency at which the host must send messages to the controller, in seconds.
pub const HEARTBEAT_INTERVAL: u64 = 10;

/// `std::time::Instant`: when the host's token last changed; nothing inside it is read.
#[verifier::external_type_specification]
#[verifier::external_body]
pub struct ExInstant(std::time::Instant);

/// The current time. Nothing is claimed of the value.
pub assume_specification[ std::time::Instant::now ]() -> std::time::Instant;

/// The time elapsed since the instant. Nothing is claimed of the value.
pub assume_specification[ std::time::Instant::elapsed ](i: &std::time::Instant) -> core::time::Duration;

/// The whole seconds of a duration. Nothing is claimed of the value.
pub assume_specification[ core::time::Duration::as_secs ](d: &core::time::Duration) -> u64;

/// The fractional part of a duration in nanoseconds, which the documentation
/// says is always less than one billion.
pub assume_specification[ core::time::Duration::subsec_nanos ](d: &core::time::Duration) -> (r: u32)
    ensures
        r < 1_000_000_000,
;

/// A random 64-bit number.
///
/// Trusted: calls `rand::thread_rng().gen::<u64>()`. The value comes from the
/// thread's random number generator, so nothing is claimed of it.
#[verifier::external_body]
fn random_u64() -> u64 {
    rand::thread_rng().gen::<u64>()
}

/// The computation backend of a host.
#[derive(Clone, Copy, Debug, PartialEq, Eq, Structural)]
pub enum Backend {
    /// WebAssembly executables.
    Wasm,
    /// Native executables.
    Binary,
}

/// A request token. The host admits a compute request only if it carries
/// the host's active token.
#[derive(Debug)]
pub struct Token(pub String);

/// The token a compute request must carry.
pub type RequestToken = Token;

impl View for Token {
    type V = Seq<char>;

    open spec fn view(&self) -> Seq<char> {
        self.0@
    }
}

impl Clone for Token {
    fn clone(&self) -> (res: Self)
        ensures
            res@ == self@,
    {
        Token(self.0.clone())
    }
}

impl PartialEq for Token {
    fn eq(&self, other: &Self) -> (res: bool) {
        self.0 == other.0
    }
}

impl PartialEqSpecImpl for Token {
    open spec fn obeys_eq_spec() -> bool {
        true
    }

    open spec fn eq_spec(&self, other: &Self) -> bool {
        self@ == other@
    }
}

/// The text of every token that `Token::gen` can produce.
pub open spec fn is_generated_token(t: Seq<char>) -> bool {
    exists|r: u64| t == decimal(r as nat)
}

impl Token {
    /// A fresh random token: a random 64-bit number in decimal.
    pub fn gen() -> (t: Token)
        ensures
            is_generated_token(t@),
    {
        let r = random_u64();
        Token(to_decimal(r))
    }
}

/// The view of an optional token.
pub open spec fn token_view(t: Option<Token>) -> Option<Seq<char>> {
    match t {
        Some(t) => Some(t@),
        None => None,
    }
}

/// Whether a heartbeat with a new token is due: the host holds an active
/// token, and more than `HEARTBEAT_INTERVAL` seconds have passed since the
/// token last changed.
pub open spec fn spec_heartbeat_due(has_token: bool, secs: u64, nanos: u32) -> bool {
    has_token && secs * 1_000_000_000 + nanos > HEARTBEAT_INTERVAL * 1_000_000_000
}

/// Whether a heartbeat is due, given whether the host holds an active token
/// and the time since the token last changed (whole seconds and nanoseconds).
pub fn heartbeat_due(has_token: bool, secs: u64, nanos: u32) -> (res: bool)
    ensures
        res == spec_heartbeat_due(has_token, secs, nanos),
{
    let elapsed: u128 = (secs as u128) * 1_000_000_000 + (nanos as u128);
    has_token && elapsed > (HEARTBEAT_INTERVAL as u128) * 1_000_000_000
}

/// What happens to a host that serves a compute request.
pub enum ComputeEvent<R> {
    /// A compute request carrying this token arrived.
    Request(Token),
    /// The computation of the admitted request finished with this result.
    Done(Result<R, Error>),
}

/// What the host must do next while serving a compute request.
pub enum ComputeAction<R> {
    /// Refuse the request with this error; nothing is run or sent.
    Refuse(Error),
    /// Tell the controller the computation starts, then run it.
    StartAndRun,
    /// Tell the controller the computation ended, with the host's new
    /// token, and reply with the result.
    EndAndReply(Token, Result<R, Error>),
}

/// What a host is, as its contracts speak of it.
pub struct HostView {
    pub id: u32,
    pub karl_path: Seq<char>,
    pub base_path: Seq<char>,
    pub backend: Backend,
    pub port: u16,
    pub controller: Seq<char>,
    pub token: Option<Seq<char>>,
}

pub struct Host {
    /// Node/service ID
    id: u32,
    /// Karl path, likely ~/.karl
    karl_path: String,
    /// Computation request base, likely ~/.karl/<id>
    /// Computation root likely at ~/.karl/<id>/root/
    base_path: String,
    backend: Backend,
    port: u16,
    /// Controller address.
    controller: String,
    /// The active request token. The host will only accept a compute
    /// request if it includes the active token. The token is None while
    /// the host is processing a compute request.
    token: Option<Token>,
    /// When the token last changed.
    token_updated: std::time::Instant,
}

impl View for Host {
    type V = HostView;

    closed spec fn view(&self) -> HostView {
        HostView {
            id: self.id,
            karl_path: self.karl_path@,
            base_path: self.base_path@,
            backend: self.backend,
            port: self.port,
            controller: self.controller@,
            token: token_view(self.token),
        }
    }
}

/// The host admits a compute request carrying token `t`: `t` is its active token.
pub open spec fn accepts(h: HostView, t: Seq<char>) -> bool {
    h.token == Some(t)
}

/// The host after it admitted a request: it holds no active token.
pub open spec fn after_use(h: HostView) -> HostView {
    HostView { token: None, ..h }
}

/// The host with `t` as its active token.
pub open spec fn with_token(h: HostView, t: Seq<char>) -> HostView {
    HostView { token: Some(t), ..h }
}

/// A token admits at most one request: once the host admitted a request
/// with a token, it admits no request at all, with that token or any
/// other, until it holds a new token.
pub proof fn lemma_token_admits_once(h: HostView, t: Seq<char>, u: Seq<char>)
    requires
        accepts(h, t),
    ensures
        !accepts(after_use(h), u),
{
}

/// A host admits a request only with its one active token: a token other
/// than the active one is refused.
pub proof fn lemma_only_active_token_admits(h: HostView, t: Seq<char>, u: Seq<char>)
    requires
        accepts(h, t),
        t != u,
    ensures
        !accepts(h, u),
{
}

/// The token a host was given is the one it admits next.
pub proof fn lemma_new_token_admitted(h: HostView, t: Seq<char>)
    ensures
        accepts(with_token(h, t), t),
        after_use(with_token(h, t)) == after_use(h),
{
}

/// Serving one admitted request, from arrival to the end of its
/// computation, leaves the host as it was but with the fresh token: the
/// fresh token is admitted next, and the used one no longer is.
pub proof fn lemma_serving_renews_token(h: HostView, t: Seq<char>, fresh: Seq<char>)
    requires
        accepts(h, t),
    ensures
        with_token(after_use(h), fresh) == with_token(h, fresh),
        accepts(with_token(after_use(h), fresh), fresh),
        fresh != t ==> !accepts(with_token(after_use(h), fresh), t),
{
}

/// A host that holds no active token (it is processing a request) never
/// sends a heartbeat, however long ago its token changed.
pub proof fn lemma_no_heartbeat_while_busy(secs: u64, nanos: u32)
    ensures
        !spec_heartbeat_due(false, secs, nanos),
{
}

/// Once a heartbeat is due it stays due as time passes.
pub proof fn lemma_heartbeat_due_monotone(secs1: u64, nanos1: u32, secs2: u64, nanos2: u32)
    requires
        spec_heartbeat_due(true, secs1, nanos1),
        secs1 * 1_000_000_000 + nanos1 <= secs2 * 1_000_000_000 + nanos2,
    ensures
        spec_heartbeat_due(true, secs2, nanos2),
{
}

/// The computation base of the host with this id: `<karl_path>/<id>`.
pub open spec fn spec_base_path(karl_path: Seq<char>, id: u32) -> Seq<char> {
    spec_join(karl_path, decimal(id as nat))
}

impl Host {
    #[verifier::type_invariant]
    spec fn base_path_inv(self) -> bool {
        self.base_path@ == spec_base_path(self.karl_path@, self.id)
    }

    /// Generate a new host with a random ID and no active token.
    pub fn new(karl_path: String, backend: Backend, port: u16, controller: &str) -> (h: Self)
        ensures
            h@.karl_path == karl_path@,
            h@.base_path == spec_base_path(karl_path@, h@.id),
            h@.backend == backend,
            h@.port == port,
            h@.controller == controller@,
            h@.token is None,
    {
        let id: u32 = (random_u64() % 4_294_967_296) as u32;
        let base_path = join(karl_path.as_str(), to_decimal(id as u64).as_str());
        Host {
            id,
            karl_path,
            base_path,
            backend,
            port,
            controller: controller.to_owned(),
            token: None,
            token_updated: std::time::Instant::now(),
        }
    }

    /// Node/service ID.
    pub fn id(&self) -> (id: u32)
        ensures
            id == self@.id,
    {
        self.id
    }

    /// Karl path, likely ~/.karl
    pub fn karl_path(&self) -> (p: &str)
        ensures
            p@ == self@.karl_path,
    {
        self.karl_path.as_str()
    }

    /// Computation request base: `<karl_path>/<id>`.
    pub fn base_path(&self) -> (p: &str)
        ensures
            p@ == self@.base_path,
            p@ == spec_base_path(self@.karl_path, self@.id),
    {
        proof {
            use_type_invariant(self);
        }
        self.base_path.as_str()
    }

    /// The computation backend.
    pub fn backend(&self) -> (b: Backend)
        ensures
            b == self@.backend,
    {
        self.backend
    }

    /// The port the host listens on.
    pub fn port(&self) -> (p: u16)
        ensures
            p == self@.port,
    {
        self.port
    }

    /// Record the port the host actually listens on.
    pub fn set_port(&mut self, port: u16)
        ensures
            final(self)@ == (HostView { port, ..old(self)@ }),
    {
        proof {
            use_type_invariant(&*self);
        }
        self.port = port;
    }

    /// Controller address.
    pub fn controller(&self) -> (c: &str)
        ensures
            c@ == self@.controller,
    {
        self.controller.as_str()
    }

    /// The active request token, if any.
    pub fn request_token(&self) -> (t: Option<Token>)
        ensures
            token_view(t) == self@.token,
    {
        match &self.token {
            Some(t) => Some(t.clone()),
            None => None,
        }
    }

    /// Make `token` the active request token.
    pub fn set_request_token(&mut self, token: Token)
        ensures
            final(self)@ == with_token(old(self)@, token@),
    {
        proof {
            use_type_invariant(&*self);
        }
        self.token = Some(token);
        self.token_updated = std::time::Instant::now();
    }

    /// Validate and use the request token.
    ///
    /// If the token is valid, "uses" the token by invalidating it for
    /// future requests, indicating that the host has an active request.
    /// If not, returns Error::InvalidRequestToken and keeps the active token.
    pub fn use_request_token(&mut self, token: &Token) -> (res: Result<(), Error>)
        ensures
            res is Ok <==> accepts(old(self)@, token@),
            res is Ok ==> final(self)@ == after_use(old(self)@),
            res is Err ==> *final(self) == *old(self),
            res matches Err(e) ==> e matches Error::InvalidRequestToken(m) && m@ == if old(
                self,
            )@.token is None {
                "no active token"@
            } else {
                "tokens do not match"@
            },
    {
        proof {
            use_type_invariant(&*self);
        }
        match &self.token {
            Some(real_token) => {
                if !(token.0 == real_token.0) {
                    let msg = "tokens do not match";
                    return Err(Error::InvalidRequestToken(msg.to_owned()));
                }
            },
            None => {
                let msg = "no active token";
                return Err(Error::InvalidRequestToken(msg.to_owned()));
            },
        }
        // Invalidate the token for future requests.
        self.token = None;
        self.token_updated = std::time::Instant::now();
        Ok(())
    }

    /// Replace the active token by a fresh one and return it.
    pub fn renew_token(&mut self) -> (t: Token)
        ensures
            final(self)@ == with_token(old(self)@, t@),
            is_generated_token(t@),
    {
        proof {
            use_type_invariant(&*self);
        }
        let t = Token::gen();
        self.token = Some(t.clone());
        self.token_updated = std::time::Instant::now();
        t
    }

    /// One step of serving compute requests: what the host does on `event`.
    ///
    /// - `Request(token)`: a compute request carrying `token` arrived. Unless
    ///   `token` is the active token, the request is refused with
    ///   `Error::InvalidRequestToken` and the host is left exactly as it was;
    ///   otherwise the token is used up and the controller is to be told of
    ///   the start before the computation runs.
    /// - `Done(result)`: the computation of an admitted request finished, well
    ///   or not. The host gets a fresh token; the controller is to be told of
    ///   the end with that token, and `result` is the reply.
    pub fn compute_step<R>(&mut self, event: ComputeEvent<R>) -> (action: ComputeAction<R>)
        ensures
            event matches ComputeEvent::Request(t) ==> {
                &&& !accepts(old(self)@, t@) ==> {
                    &&& *final(self) == *old(self)
                    &&& action matches ComputeAction::Refuse(e) && e matches Error::InvalidRequestToken(m)
                        && m@ == if old(self)@.token is None {
                        "no active token"@
                    } else {
                        "tokens do not match"@
                    }
                }
                &&& accepts(old(self)@, t@) ==> {
                    &&& final(self)@ == after_use(old(self)@)
                    &&& action is StartAndRun
                }
            },
            event matches ComputeEvent::Done(r) ==> action matches ComputeAction::EndAndReply(t, reply)
                && reply == r && final(self)@ == with_token(old(self)@, t@) && is_generated_token(t@),
    {
        match event {
            ComputeEvent::Request(token) => {
                match self.use_request_token(&token) {
                    Ok(()) => ComputeAction::StartAndRun,
                    Err(e) => ComputeAction::Refuse(e),
                }
            },
            ComputeEvent::Done(result) => {
                let t = self.renew_token();
                ComputeAction::EndAndReply(t, result)
            },
        }
    }

    /// Renew the active token if a heartbeat is due, and return the new
    /// token to send with it. A host without an active token (one that is
    /// processing a request) sends no heartbeat.
    pub fn heartbeat(&mut self) -> (res: Option<Token>)
        ensures
            res is Some ==> old(self)@.token is Some,
            res matches Some(t) ==> final(self)@ == with_token(old(self)@, t@) && is_generated_token(
                t@,
            ),
            res is None ==> final(self)@ == old(self)@,
    {
        let elapsed = self.token_updated.elapsed();
        let secs = elapsed.as_secs();
        let nanos = elapsed.subsec_nanos();
        self.heartbeat_after(secs, nanos)
    }

    /// Given the time since the token last changed (whole seconds and
    /// nanoseconds), renew the active token if a heartbeat is due and return
    /// the new token to send with it; otherwise change nothing.
    pub fn heartbeat_after(&mut self, secs: u64, nanos: u32) -> (res: Option<Token>)
        ensures
            res is Some <==> spec_heartbeat_due(old(self)@.token is Some, secs, nanos),
            res matches Some(t) ==> final(self)@ == with_token(old(self)@, t@) && is_generated_token(
                t@,
            ),
            res is None ==> *final(self) == *old(self),
    {
        if heartbeat_due(self.token.is_some(), secs, nanos) {
            Some(self.renew_token())
        } else {
            None
        }
    }
}

} // verus!
