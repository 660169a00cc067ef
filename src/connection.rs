//! The streaming connections: where they go, what they send, when a failed
//! one is retried, and how a change of settings restarts them all.
//!
//! The waiting, reading and writing happen outside the library. The decisions
//! are made here as state machines: the caller reports what happened and is
//! told what to do next.

use vstd::prelude::*;
use vstd::string::*;
use crate::config::Account;

verus! {

broadcast use vstd::string::group_string_axioms;

/// Longest wait between two connection attempts, in seconds.
pub const BACKOFF_CAP_SECS: u64 = 5;

/// A connection attempt that takes longer than this, in seconds, has failed.
pub const CONNECT_TIMEOUT_SECS: u64 = 2;

/// Interval between two keepalive frames, in seconds.
pub const KEEPALIVE_SECS: u64 = 60;

/// How often a supervisor without enabled accounts looks again, in seconds.
pub const IDLE_POLL_SECS: u64 = 1;

/// 2 to the power `e`.
pub open spec fn pow2(e: nat) -> nat
    decreases e,
{
    if e == 0 {
        1
    } else {
        2 * pow2((e - 1) as nat)
    }
}

/// The wait after `failures` consecutive failures: `min(2^(failures-1), 5)`
/// seconds, and one second where no failure is counted yet.
pub open spec fn backoff(failures: nat) -> nat {
    let e = if failures == 0 {
        0
    } else {
        (failures - 1) as nat
    };
    if pow2(e) < BACKOFF_CAP_SECS {
        pow2(e)
    } else {
        BACKOFF_CAP_SECS as nat
    }
}

proof fn lemma_pow2_small()
    ensures
        pow2(0) == 1,
        pow2(1) == 2,
        pow2(2) == 4,
        pow2(3) == 8,
{
    assert(pow2(0) == 1);
    assert(pow2(1) == 2 * pow2(0));
    assert(pow2(2) == 2 * pow2(1));
    assert(pow2(3) == 2 * pow2(2));
}

proof fn lemma_pow2_at_least_8(e: nat)
    requires
        e >= 3,
    ensures
        pow2(e) >= 8,
    decreases e,
{
    if e > 3 {
        lemma_pow2_at_least_8((e - 1) as nat);
    } else {
        lemma_pow2_small();
    }
}

/// The wait, in seconds, after `failures` consecutive failures.
pub fn backoff_secs(failures: u32) -> (r: u64)
    ensures
        r == backoff(failures as nat),
{
    let e = failures.saturating_sub(1);
    proof {
        lemma_pow2_small();
        if e >= 3 {
            lemma_pow2_at_least_8(e as nat);
        }
    }
    if e == 0 {
        1
    } else if e == 1 {
        2
    } else if e == 2 {
        4
    } else {
        BACKOFF_CAP_SECS
    }
}

/// What happened to an account's connection.
pub enum LinkEvent {
    /// The connection was opened.
    Connected,
    /// The connection could not be opened in time.
    ConnectFailed,
    /// The timeline subscription was sent.
    Subscribed,
    /// The subscription could not be sent.
    SubscribeFailed,
    /// The stream ended or broke while being read.
    StreamEnded,
}

/// What to do next with an account's connection.
pub enum LinkAction {
    /// Subscribe to the account's timeline.
    Subscribe,
    /// Read frames until the stream ends.
    Read,
    /// Wait this many seconds, then connect again.
    Retry(u64),
}

/// The retry state of one account's connection.
pub struct RetryState {
    pub consecutive_failures: u32,
}

/// The failure count after an event.
pub open spec fn failures_after(f: u32, e: LinkEvent) -> u32 {
    match e {
        LinkEvent::Connected => f,
        LinkEvent::Subscribed => 0,
        _ => if f < u32::MAX {
            (f + 1) as u32
        } else {
            f
        },
    }
}

/// The action after an event, given the failure count it leaves.
pub open spec fn action_after(f: u32, e: LinkEvent) -> LinkAction {
    match e {
        LinkEvent::Connected => LinkAction::Subscribe,
        LinkEvent::Subscribed => LinkAction::Read,
        _ => LinkAction::Retry(backoff(failures_after(f, e) as nat) as u64),
    }
}

impl RetryState {
    pub fn new() -> (r: Self)
        ensures
            r.consecutive_failures == 0,
    {
        RetryState { consecutive_failures: 0 }
    }

    /// Records an event and says what to do next: subscribe once connected,
    /// read once subscribed (which clears the failure count), and after any
    /// failure wait out the backoff before connecting again.
    pub fn on_event(&mut self, event: LinkEvent) -> (r: LinkAction)
        ensures
            final(self).consecutive_failures == failures_after(
                old(self).consecutive_failures,
                event,
            ),
            r == action_after(old(self).consecutive_failures, event),
    {
        match event {
            LinkEvent::Connected => LinkAction::Subscribe,
            LinkEvent::Subscribed => {
                self.consecutive_failures = 0;
                LinkAction::Read
            },
            _ => {
                self.consecutive_failures = self.consecutive_failures.saturating_add(1);
                LinkAction::Retry(backoff_secs(self.consecutive_failures))
            },
        }
    }
}

/// The waits after `n` consecutive failures, with no success between them.
pub open spec fn backoff_sequence(n: nat) -> Seq<nat> {
    Seq::new(n, |i: int| backoff((i + 1) as nat))
}

/// After consecutive failures with no success the waits run 1, 2, 4, 5, 5, 5,
/// ... seconds; after a successful subscription the next failure waits one
/// second again.
pub proof fn lemma_backoff_sequence(n: nat, f: u32)
    ensures
        n >= 1 ==> backoff_sequence(n)[0] == 1,
        n >= 2 ==> backoff_sequence(n)[1] == 2,
        n >= 3 ==> backoff_sequence(n)[2] == 4,
        forall|i: int| 3 <= i < n ==> #[trigger] backoff_sequence(n)[i] == 5,
        failures_after(failures_after(f, LinkEvent::Subscribed), LinkEvent::StreamEnded) == 1,
        action_after(failures_after(f, LinkEvent::Subscribed), LinkEvent::ConnectFailed)
            == LinkAction::Retry(1),
{
    lemma_pow2_small();
    assert forall|i: int| 3 <= i < n implies #[trigger] backoff_sequence(n)[i] == 5 by {
        lemma_pow2_at_least_8((i) as nat);
    }
}

// ---------------------------------------------------------------------------
// The supervisor
// ---------------------------------------------------------------------------

/// Runs one connection per enabled account. Each run of connections belongs
/// to a generation; a change of settings ends the generation, so that the
/// connections of the old one are cancelled and their records dropped, and
/// marks the supervisor disconnected until the new connections are started.
pub struct Supervisor {
    pub generation: u64,
    /// Set once the generation counter is spent: from then on no connection
    /// delivers records.
    pub exhausted: bool,
    pub connected: bool,
    /// The names of the accounts whose connections run now.
    pub running: Vec<String>,
}

/// The enabled accounts among `a`, in order.
pub open spec fn enabled(a: Seq<Account>) -> Seq<Account>
    decreases a.len(),
{
    if a.len() == 0 {
        Seq::empty()
    } else {
        let p = enabled(a.drop_last());
        if a.last().enabled {
            p.push(a.last())
        } else {
            p
        }
    }
}

pub open spec fn account_names(a: Seq<Account>) -> Seq<Seq<char>> {
    a.map_values(|x: Account| x.name@)
}

/// `t` is `s` after a change of settings: a new generation (or, with the
/// counter spent, no generation that delivers), nothing running, and
/// disconnected.
pub open spec fn reconfigured(s: Supervisor, t: Supervisor) -> bool {
    &&& t.generation == if s.generation < u64::MAX {
        (s.generation + 1) as u64
    } else {
        s.generation
    }
    &&& t.exhausted == (s.exhausted || s.generation == u64::MAX)
    &&& !t.connected
    &&& t.running@.len() == 0
}

/// `t` is `s` after the connections of `accounts` were started: the same
/// generation, the enabled accounts running, and connected exactly when
/// there is at least one.
pub open spec fn started(s: Supervisor, t: Supervisor, accounts: Seq<Account>) -> bool {
    &&& t.generation == s.generation
    &&& t.exhausted == s.exhausted
    &&& t.running@.map_values(|x: String| x@) == account_names(enabled(accounts))
    &&& t.connected == (enabled(accounts).len() > 0)
}

impl Supervisor {
    pub fn new() -> (r: Self)
        ensures
            r.generation == 0,
            !r.exhausted,
            !r.connected,
            r.running@.len() == 0,
    {
        Supervisor { generation: 0, exhausted: false, connected: false, running: Vec::new() }
    }

    /// Whether a record made by a connection of generation `g` is delivered:
    /// only while that generation runs.
    pub open spec fn delivers(&self, g: u64) -> bool {
        !self.exhausted && g == self.generation
    }

    pub fn accepts(&self, g: u64) -> (r: bool)
        ensures
            r == self.delivers(g),
    {
        !self.exhausted && g == self.generation
    }

    /// Ends the running generation on a change of settings: every running
    /// connection is to be cancelled at once, and the supervisor reads as
    /// disconnected. Returns the new generation.
    pub fn reconfigure(&mut self) -> (r: u64)
        ensures
            r == final(self).generation,
            reconfigured(*old(self), *final(self)),
    {
        if self.generation < u64::MAX {
            self.generation = self.generation + 1;
        } else {
            self.exhausted = true;
        }
        self.connected = false;
        self.running = Vec::new();
        self.generation
    }

    /// Starts the connections of the enabled accounts of `accounts`, in
    /// order, and returns them; the supervisor reads as connected once there
    /// is at least one. With none it stays disconnected, and the caller looks
    /// again after `IDLE_POLL_SECS`.
    pub fn start(&mut self, accounts: &Vec<Account>) -> (r: Vec<Account>)
        ensures
            r@ == enabled(accounts@),
            started(*old(self), *final(self), accounts@),
    {
        let mut r: Vec<Account> = Vec::new();
        let mut names: Vec<String> = Vec::new();
        for i in 0..accounts.len()
            invariant
                r@ == enabled(accounts@.subrange(0, i as int)),
                names@.map_values(|s: String| s@) == account_names(r@),
        {
            proof {
                let pre = accounts@.subrange(0, i + 1);
                assert(pre.drop_last() =~= accounts@.subrange(0, i as int));
                assert(pre.last() == accounts@[i as int]);
            }
            if accounts[i].enabled {
                let ghost n0 = names@;
                let ghost r0 = r@;
                let a = accounts[i].duplicate();
                names.push(a.name.clone());
                r.push(a);
                proof {
                    assert(names@.map_values(|s: String| s@) =~= n0.map_values(|s: String| s@).push(
                        accounts@[i as int].name@,
                    ));
                    assert(r@ =~= r0.push(accounts@[i as int]));
                }
            }
        }
        assert(accounts@.subrange(0, accounts@.len() as int) =~= accounts@);
        self.connected = r.len() > 0;
        self.running = names;
        r
    }
}

/// A change of settings cancels every connection that ran before it: none of
/// them delivers a record any more, none runs, and the supervisor reads as
/// disconnected until the connections of the new settings are started. Once
/// they are, the enabled accounts of the new settings run, the supervisor
/// reads as connected exactly when there is one, and no connection from
/// before the change delivers.
pub proof fn lemma_reconfigure_cancels(
    s: Supervisor,
    t: Supervisor,
    u: Supervisor,
    accounts: Seq<Account>,
    g: u64,
)
    requires
        reconfigured(s, t),
        started(t, u, accounts),
        g <= s.generation,
    ensures
        !t.delivers(g),
        !t.connected,
        t.running@.len() == 0,
        !u.delivers(g),
        u.connected == (enabled(accounts).len() > 0),
        u.running@.map_values(|x: String| x@) == account_names(enabled(accounts)),
{
}

// ---------------------------------------------------------------------------
// What goes over the wire
// ---------------------------------------------------------------------------

pub open spec fn hex_lower() -> Seq<char> {
    seq!['0', '1', '2', '3', '4', '5', '6', '7', '8', '9', 'a', 'b', 'c', 'd', 'e', 'f']
}

/// How `serde_json` writes one character inside a string literal: a quote, a
/// backslash and the control characters below U+0020 are escaped (the five
/// with a short form as `\b \t \n \f \r`, the rest as `\u00xx`); any other
/// character stands as it is.
pub open spec fn json_char(c: char) -> Seq<char> {
    let u = c as u32;
    if c == '"' {
        seq!['\\', '"']
    } else if c == '\\' {
        seq!['\\', '\\']
    } else if u == 8 {
        seq!['\\', 'b']
    } else if u == 9 {
        seq!['\\', 't']
    } else if u == 10 {
        seq!['\\', 'n']
    } else if u == 12 {
        seq!['\\', 'f']
    } else if u == 13 {
        seq!['\\', 'r']
    } else if u < 0x20 {
        seq!['\\', 'u', '0', '0', hex_lower()[(u / 16) as int], hex_lower()[(u % 16) as int]]
    } else {
        seq![c]
    }
}

pub open spec fn json_escaped(s: Seq<char>) -> Seq<char>
    decreases s.len(),
{
    if s.len() == 0 {
        Seq::empty()
    } else {
        json_escaped(s.drop_last()) + json_char(s.last())
    }
}

/// The JSON string literal of `s`.
pub open spec fn json_quoted(s: Seq<char>) -> Seq<char> {
    seq!['"'] + json_escaped(s) + seq!['"']
}

/// Relies on `serde_json::to_string` on a `&str`: the string literal, quoted
/// and escaped. It writes into a `Vec`, which cannot fail.
#[verifier::external_body]
fn json_string(s: &str) -> (r: String)
    ensures
        r@ == json_quoted(s@),
{
    serde_json::to_string(s).unwrap_or_default()
}

/// The streaming endpoint of `host`, with the credential as a query
/// parameter where there is one.
pub fn streaming_url(host: &str, token: &Option<String>) -> (r: String)
    ensures
        r@ == "wss://"@ + host@ + "/streaming"@ + match token {
            Some(t) => "?i="@ + t@,
            None => Seq::<char>::empty(),
        },
{
    let mut r = String::from_str("wss://");
    r.append(host);
    r.append("/streaming");
    if let Some(t) = token {
        r.append("?i=");
        r.append(t.as_str());
    }
    proof {
        assert(r@ =~= "wss://"@ + host@ + "/streaming"@ + match token {
            Some(t) => "?i="@ + t@,
            None => Seq::<char>::empty(),
        });
    }
    r
}

/// The identifier of an account's subscription: its channel name and its
/// account name, joined by a hyphen.
pub fn subscription_id(account: &Account) -> (r: String)
    ensures
        r@ == account.timeline.channel_name_spec() + "-"@ + account.name@,
{
    let mut r = String::from_str(account.timeline.to_channel_name());
    r.append("-");
    r.append(account.name.as_str());
    r
}

/// The frame that subscribes to `channel` under `id`.
pub fn subscribe_message(channel: &str, id: &str) -> (r: String)
    ensures
        r@ == "{\"type\":\"connect\",\"body\":{\"channel\":"@ + json_quoted(channel@) + ",\"id\":"@
            + json_quoted(id@) + ",\"params\":{}}}"@,
{
    let c = json_string(channel);
    let i = json_string(id);
    let mut r = String::from_str("{\"type\":\"connect\",\"body\":{\"channel\":");
    r.append(c.as_str());
    r.append(",\"id\":");
    r.append(i.as_str());
    r.append(",\"params\":{}}}");
    r
}

/// The text of a keepalive frame.
pub fn keepalive_text() -> (r: &'static str)
    ensures
        r@ == "h"@,
{
    "h"
}

/// Where the emoji named `name` is looked up on `host`.
pub fn emoji_lookup_url(host: &str, name: &str) -> (r: String)
    ensures
        r@ == "https://"@ + host@ + "/api/emoji?name="@ + name@,
{
    let mut r = String::from_str("https://");
    r.append(host);
    r.append("/api/emoji?name=");
    r.append(name);
    r
}

} // verus!
