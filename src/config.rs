//! Accounts, timelines and the application settings.

use vstd::prelude::*;
use vstd::string::*;
use vstd::utf8::*;
use base64::Engine;
use crate::text::{copy_opt, opt_view};

verus! {

broadcast use vstd::string::group_string_axioms;

/// The server-side feed that an account subscribes to.
#[derive(Debug, Clone, Copy, PartialEq, Eq, Structural)]
pub enum TimelineType {
    Hybrid,
    Local,
    Home,
    Global,
}

impl TimelineType {
    /// The channel name of the streaming protocol for this timeline.
    pub open spec fn channel_name_spec(self) -> Seq<char> {
        match self {
            TimelineType::Hybrid => "hybridTimeline"@,
            TimelineType::Local => "localTimeline"@,
            TimelineType::Home => "homeTimeline"@,
            TimelineType::Global => "globalTimeline"@,
        }
    }

    pub fn to_channel_name(&self) -> (r: &'static str)
        ensures
            r@ == self.channel_name_spec(),
    {
        match self {
            TimelineType::Hybrid => "hybridTimeline",
            TimelineType::Local => "localTimeline",
            TimelineType::Home => "homeTimeline",
            TimelineType::Global => "globalTimeline",
        }
    }

    /// The name shown for this timeline in the settings.
    pub open spec fn display_name_spec(self) -> Seq<char> {
        match self {
            TimelineType::Hybrid => "ハイブリッド"@,
            TimelineType::Local => "ローカル"@,
            TimelineType::Home => "ホーム"@,
            TimelineType::Global => "グローバル"@,
        }
    }

    pub fn display_name(&self) -> (r: &'static str)
        ensures
            r@ == self.display_name_spec(),
    {
        match self {
            TimelineType::Hybrid => "ハイブリッド",
            TimelineType::Local => "ローカル",
            TimelineType::Home => "ホーム",
            TimelineType::Global => "グローバル",
        }
    }
}

impl Default for TimelineType {
    fn default() -> (r: Self)
        ensures
            r == TimelineType::Hybrid,
    {
        TimelineType::Hybrid
    }
}

/// The text colour of an account whose settings name none: white.
pub fn default_text_color() -> (r: [u8; 3])
    ensures
        r@ == seq![255u8, 255u8, 255u8],
{
    let r = [255u8, 255u8, 255u8];
    assert(r@ =~= seq![255u8, 255u8, 255u8]);
    r
}

/// One configured account: who it is, which server it reads, with which
/// credential and timeline, whether it is read at all, and its text colour.
#[derive(Debug, Clone)]
pub struct Account {
    pub name: String,
    pub host: String,
    /// The credential in use; it is never written to the settings as it is.
    pub token: Option<String>,
    /// A credential that older settings stored in plain text.
    pub token_raw: Option<String>,
    /// The credential in the obfuscated form in which settings store it.
    pub token_obfuscated: Option<String>,
    pub timeline: TimelineType,
    pub enabled: bool,
    pub text_color: [u8; 3],
}

impl Account {
    /// A new account, with no stored credential forms.
    pub fn new(
        name: String,
        host: String,
        token: Option<String>,
        timeline: TimelineType,
        enabled: bool,
        text_color: [u8; 3],
    ) -> (r: Self)
        ensures
            r.name == name,
            r.host == host,
            r.token == token,
            r.timeline == timeline,
            r.enabled == enabled,
            r.text_color == text_color,
            r.token_raw is None,
            r.token_obfuscated is None,
    {
        Account {
            name,
            host,
            token,
            token_raw: None,
            token_obfuscated: None,
            timeline,
            enabled,
            text_color,
        }
    }
}

impl Account {
    /// A copy of this account, field for field.
    pub fn duplicate(&self) -> (r: Account)
        ensures
            r == *self,
    {
        Account {
            name: self.name.clone(),
            host: self.host.clone(),
            token: copy_opt(&self.token),
            token_raw: copy_opt(&self.token_raw),
            token_obfuscated: copy_opt(&self.token_obfuscated),
            timeline: self.timeline,
            enabled: self.enabled,
            text_color: self.text_color,
        }
    }
}

impl Default for Account {
    fn default() -> (r: Self)
        ensures
            r.name@ == Seq::<char>::empty(),
            r.host@ == Seq::<char>::empty(),
            r.token is None,
            r.token_raw is None,
            r.token_obfuscated is None,
            r.timeline == TimelineType::Hybrid,
            r.enabled,
            r.text_color@ == seq![255u8, 255u8, 255u8],
    {
        Account {
            name: String::new(),
            host: String::new(),
            token: None,
            token_raw: None,
            token_obfuscated: None,
            timeline: TimelineType::Hybrid,
            enabled: true,
            text_color: default_text_color(),
        }
    }
}

// ---------------------------------------------------------------------------
// Credential obfuscation
// ---------------------------------------------------------------------------

/// The key that credentials are XOR-ed with before they are stored:
/// the bytes of "MisskeyPostViewer2024".
pub open spec fn obfuscation_key() -> Seq<u8> {
    seq![
        77u8, 105u8, 115u8, 115u8, 107u8, 101u8, 121u8, 80u8, 111u8, 115u8, 116u8, 86u8, 105u8,
        101u8, 119u8, 101u8, 114u8, 50u8, 48u8, 50u8, 52u8,
    ]
}

/// `b` XOR-ed with the key, repeated as often as needed.
pub open spec fn xor_key(b: Seq<u8>) -> Seq<u8> {
    Seq::new(b.len(), |i: int| b[i] ^ obfuscation_key()[i % 21])
}

/// The standard Base64 alphabet.
pub open spec fn base64_alphabet() -> Seq<char> {
    "ABCDEFGHIJKLMNOPQRSTUVWXYZabcdefghijklmnopqrstuvwxyz0123456789+/"@
}

/// The standard Base64 text of `b`: each three bytes become four characters
/// of six bits each; a last group of one or two bytes is padded with `=`.
pub open spec fn base64_of(b: Seq<u8>) -> Seq<char>
    decreases b.len(),
{
    let d = |v: int| base64_alphabet()[v];
    if b.len() == 0 {
        Seq::empty()
    } else if b.len() == 1 {
        let x = b[0] as int;
        seq![d(x / 4), d((x % 4) * 16), '=', '=']
    } else if b.len() == 2 {
        let x = b[0] as int;
        let y = b[1] as int;
        seq![d(x / 4), d((x % 4) * 16 + y / 16), d((y % 16) * 4), '=']
    } else {
        let x = b[0] as int;
        let y = b[1] as int;
        let z = b[2] as int;
        seq![d(x / 4), d((x % 4) * 16 + y / 16), d((y % 16) * 4 + z / 64), d(z % 64)] + base64_of(
            b.subrange(3, b.len() as int),
        )
    }
}

/// The bytes that the `base64` crate reads from the standard Base64 text
/// `s`; nothing where `s` is no such text.
pub uninterp spec fn base64_bytes_of(s: Seq<char>) -> Option<Seq<u8>>;

/// Relies on `base64::engine::general_purpose::STANDARD.encode`, whose
/// output the same engine's `decode` reads back to the input.
#[verifier::external_body]
fn base64_encode(b: &[u8]) -> (r: String)
    ensures
        r@ == base64_of(b@),
        base64_bytes_of(r@) == Some(b@),
{
    base64::engine::general_purpose::STANDARD.encode(b)
}

/// Relies on `base64::engine::general_purpose::STANDARD.decode`.
#[verifier::external_body]
fn base64_decode(s: &str) -> (r: Option<Vec<u8>>)
    ensures
        match r {
            Some(v) => base64_bytes_of(s@) == Some(v@),
            None => base64_bytes_of(s@) is None,
        },
{
    base64::engine::general_purpose::STANDARD.decode(s).ok()
}

/// Relies on `String::from_utf8`: the bytes as text where they are valid UTF-8.
#[verifier::external_body]
fn utf8_string(v: Vec<u8>) -> (r: Option<String>)
    ensures
        r is Some <==> valid_utf8(v@),
        r matches Some(s) ==> s@ == decode_utf8(v@),
{
    String::from_utf8(v).ok()
}

fn xor_with_key(b: &[u8]) -> (r: Vec<u8>)
    ensures
        r@ == xor_key(b@),
{
    let key: [u8; 21] = [
        77u8, 105u8, 115u8, 115u8, 107u8, 101u8, 121u8, 80u8, 111u8, 115u8, 116u8, 86u8, 105u8,
        101u8, 119u8, 101u8, 114u8, 50u8, 48u8, 50u8, 52u8,
    ];
    assert(key@ =~= obfuscation_key());
    let mut r: Vec<u8> = Vec::new();
    for i in 0..b.len()
        invariant
            key@ == obfuscation_key(),
            r@ =~= xor_key(b@).subrange(0, i as int),
    {
        r.push(b[i] ^ key[i % 21]);
    }
    assert(r@ =~= xor_key(b@));
    r
}

/// The stored form of a credential: its UTF-8 bytes XOR-ed with the key,
/// in standard Base64.
pub open spec fn obfuscated(token: Seq<char>) -> Seq<char> {
    base64_of(xor_key(encode_utf8(token)))
}

/// The credential that a stored form gives back: nothing where it is no
/// Base64 text, or where its bytes, XOR-ed back, are no UTF-8 text.
pub open spec fn deobfuscated(stored: Seq<char>) -> Option<Seq<char>> {
    match base64_bytes_of(stored) {
        Some(b) => if valid_utf8(xor_key(b)) {
            Some(decode_utf8(xor_key(b)))
        } else {
            None
        },
        None => None,
    }
}

proof fn lemma_xor_twice(b: Seq<u8>)
    ensures
        xor_key(xor_key(b)) == b,
{
    assert forall|i: int| 0 <= i < b.len() implies #[trigger] xor_key(xor_key(b))[i] == b[i] by {
        let x = b[i];
        let k = obfuscation_key()[i % 21];
        assert((x ^ k) ^ k == x) by (bit_vector);
    }
    assert(xor_key(xor_key(b)) =~= b);
}

/// The stored form of a credential, which gives the credential back.
pub fn obfuscate_token(token: &str) -> (r: String)
    ensures
        r@ == obfuscated(token@),
        deobfuscated(r@) == Some(token@),
{
    let x = xor_with_key(token.as_bytes());
    let r = base64_encode(x.as_slice());
    proof {
        lemma_xor_twice(encode_utf8(token@));
        encode_utf8_valid_utf8(token@);
        encode_utf8_decode_utf8(token@);
    }
    r
}

pub fn deobfuscate_token(encoded: &str) -> (r: Option<String>)
    ensures
        match r {
            Some(s) => deobfuscated(encoded@) == Some(s@),
            None => deobfuscated(encoded@) is None,
        },
{
    let decoded = base64_decode(encoded)?;
    let plain = xor_with_key(decoded.as_slice());
    utf8_string(plain)
}

impl Account {
    /// Restores the credential in use after the settings were read: from the
    /// obfuscated form where there is one, else from the plain-text form of
    /// older settings, which is then dropped.
    pub fn restore_token(&mut self)
        ensures
            restored(*old(self), *final(self)),
    {
        if let Some(o) = &self.token_obfuscated {
            self.token = deobfuscate_token(o.as_str());
        } else if self.token_raw.is_some() {
            self.token = self.token_raw.take();
        }
    }

    /// Prepares the account to be written: the credential in use goes to the
    /// obfuscated form, and the plain-text form is dropped.
    pub fn prepare_for_save(&mut self)
        ensures
            prepared(*old(self), *final(self)),
    {
        if let Some(t) = &self.token {
            self.token_obfuscated = Some(obfuscate_token(t.as_str()));
        } else {
            self.token_obfuscated = None;
        }
        self.token_raw = None;
    }
}

/// `b` is `a` prepared to be written: the credential in use in its
/// obfuscated form, from which it can be restored, and no plain-text form.
pub open spec fn prepared(a: Account, b: Account) -> bool {
    &&& b.name == a.name
    &&& b.host == a.host
    &&& b.token == a.token
    &&& b.timeline == a.timeline
    &&& b.enabled == a.enabled
    &&& b.text_color == a.text_color
    &&& b.token_raw is None
    &&& opt_view(b.token_obfuscated) == match a.token {
        Some(t) => Some(obfuscated(t@)),
        None => None,
    }
    &&& match (a.token, b.token_obfuscated) {
        (Some(t), Some(o)) => deobfuscated(o@) == Some(t@),
        _ => true,
    }
}

/// A credential prepared for saving and restored after reading is the
/// credential that was saved.
pub proof fn lemma_save_then_restore(a: Account, b: Account, c: Account)
    requires
        prepared(a, b),
        restored(b, c),
        a.token is Some,
    ensures
        opt_view(c.token) == opt_view(a.token),
{
}

/// `b` is `a` with its credential restored after reading the settings.
pub open spec fn restored(a: Account, b: Account) -> bool {
    &&& b.name == a.name
    &&& b.host == a.host
    &&& b.timeline == a.timeline
    &&& b.enabled == a.enabled
    &&& b.text_color == a.text_color
    &&& b.token_obfuscated == a.token_obfuscated
    &&& match a.token_obfuscated {
        Some(o) => opt_view(b.token) == deobfuscated(o@) && b.token_raw == a.token_raw,
        None => match a.token_raw {
            Some(t) => b.token == Some(t) && b.token_raw is None,
            None => b.token == a.token && b.token_raw is None,
        },
    }
}

// ---------------------------------------------------------------------------
// The settings
// ---------------------------------------------------------------------------

/// The application settings.
#[derive(Debug, Clone)]
pub struct AppConfig {
    pub accounts: Vec<Account>,
    pub active_account_index: usize,
    pub debug: bool,
    pub fallback_font: Option<String>,
}

/// The account that settings without any get: "Default Account" on
/// misskey.io, enabled, on the hybrid timeline, in white.
pub open spec fn is_default_account(a: Account) -> bool {
    &&& a.name@ == "Default Account"@
    &&& a.host@ == "misskey.io"@
    &&& a.token is None
    &&& a.token_raw is None
    &&& a.token_obfuscated is None
    &&& a.timeline == TimelineType::Hybrid
    &&& a.enabled
    &&& a.text_color@ == seq![255u8, 255u8, 255u8]
}

impl AppConfig {
    /// The account at the active index, where there is one.
    pub fn get_active_account(&self) -> (r: Option<&Account>)
        ensures
            self.active_account_index < self.accounts@.len() ==> r == Some(
                &self.accounts@[self.active_account_index as int],
            ),
            self.active_account_index >= self.accounts@.len() ==> r is None,
    {
        if self.active_account_index < self.accounts.len() {
            Some(&self.accounts[self.active_account_index])
        } else {
            None
        }
    }

    /// Completes settings just read: restores every account's credential,
    /// and gives settings without accounts the default one.
    pub fn finish_load(&mut self)
        ensures
            final(self).active_account_index == old(self).active_account_index,
            final(self).debug == old(self).debug,
            final(self).fallback_font == old(self).fallback_font,
            old(self).accounts@.len() == 0 ==> final(self).accounts@.len() == 1
                && is_default_account(final(self).accounts@[0]),
            old(self).accounts@.len() > 0 ==> final(self).accounts@.len()
                == old(self).accounts@.len() && forall|i: int|
                0 <= i < old(self).accounts@.len() ==> restored(
                    #[trigger] old(self).accounts@[i],
                    final(self).accounts@[i],
                ),
    {
        let ghost a0 = self.accounts@;
        let ghost c0 = *self;
        let n = self.accounts.len();
        for i in 0..n
            invariant
                self.active_account_index == c0.active_account_index,
                self.debug == c0.debug,
                self.fallback_font == c0.fallback_font,
                self.accounts@.len() == n,
                n == a0.len(),
                forall|j: int| 0 <= j < i ==> restored(#[trigger] a0[j], self.accounts@[j]),
                forall|j: int| i <= j < n ==> #[trigger] self.accounts@[j] == a0[j],
        {
            self.accounts[i].restore_token();
        }
        if self.accounts.len() == 0 {
            let a = Account::new(
                String::from_str("Default Account"),
                String::from_str("misskey.io"),
                None,
                TimelineType::Hybrid,
                true,
                default_text_color(),
            );
            self.accounts.push(a);
        }
    }
}

// ---------------------------------------------------------------------------
// The settings file
// ---------------------------------------------------------------------------

pub open spec fn digits() -> Seq<char> {
    seq!['0', '1', '2', '3', '4', '5', '6', '7', '8', '9']
}

/// `n` in decimal.
pub open spec fn decimal(n: nat) -> Seq<char>
    decreases n,
{
    if n < 10 {
        seq![digits()[n as int]]
    } else {
        decimal(n / 10) + seq![digits()[(n % 10) as int]]
    }
}

pub fn decimal_string(n: u64) -> (r: String)
    ensures
        r@ == decimal(n as nat),
    decreases n,
{
    let ds = "0123456789";
    proof {
        reveal_strlit("0123456789");
        assert(ds@ =~= digits());
    }
    let d = (n % 10) as usize;
    let digit = ds.substring_char(d, d + 1);
    assert(digit@ =~= seq![digits()[(n % 10) as int]]);
    if n < 10 {
        String::from_str(digit)
    } else {
        let mut r = decimal_string(n / 10);
        r.append(digit);
        r
    }
}

pub open spec fn bool_text(b: bool) -> Seq<char> {
    if b {
        "true"@
    } else {
        "false"@
    }
}

/// The key under which settings store a timeline.
pub open spec fn timeline_key(t: TimelineType) -> Seq<char> {
    match t {
        TimelineType::Hybrid => "hybrid"@,
        TimelineType::Local => "local"@,
        TimelineType::Home => "home"@,
        TimelineType::Global => "global"@,
    }
}

/// The name and host lines of an account's settings entry.
pub open spec fn account_head(a: Account) -> Seq<char> {
    "[[accounts]]\n"@ + "name = \""@ + a.name@ + "\"\n"@ + "host = \""@ + a.host@ + "\"\n"@
}

/// The credential line of an account's settings entry: the credential in
/// use in its obfuscated form, never as it is.
pub open spec fn account_token_line(a: Account) -> Seq<char> {
    match a.token {
        Some(t) => "token_obfuscated = \""@ + obfuscated(t@) + "\"\n"@,
        None => Seq::<char>::empty(),
    }
}

/// The timeline, enabled and colour lines of an account's settings entry.
pub open spec fn account_tail(a: Account) -> Seq<char> {
    "timeline = \""@ + timeline_key(a.timeline) + "\"\n"@ + "enabled = "@ + bool_text(a.enabled)
        + "\n"@ + "text_color = ["@ + decimal(a.text_color@[0] as nat) + ", "@ + decimal(
        a.text_color@[1] as nat,
    ) + ", "@ + decimal(a.text_color@[2] as nat) + "]\n"@ + "\n"@
}

/// The settings entry of one account.
pub open spec fn account_toml(a: Account) -> Seq<char> {
    account_head(a) + account_token_line(a) + account_tail(a)
}

pub open spec fn accounts_toml(s: Seq<Account>) -> Seq<char>
    decreases s.len(),
{
    if s.len() == 0 {
        Seq::empty()
    } else {
        accounts_toml(s.drop_last()) + account_toml(s.last())
    }
}

/// The settings file that `c` is saved as.
pub open spec fn config_toml(c: AppConfig) -> Seq<char> {
    "# Misskey Post Viewer Configuration\n\n"@ + "active_account_index = "@ + decimal(
        c.active_account_index as nat,
    ) + "\n"@ + "debug = "@ + bool_text(c.debug) + "\n"@ + match c.fallback_font {
        Some(f) => "fallback_font = \""@ + f@ + "\"\n"@,
        None => Seq::<char>::empty(),
    } + "\n"@ + accounts_toml(c.accounts@)
}

fn bool_text_exec(b: bool) -> (r: &'static str)
    ensures
        r@ == bool_text(b),
{
    if b {
        "true"
    } else {
        "false"
    }
}

fn timeline_key_exec(t: TimelineType) -> (r: &'static str)
    ensures
        r@ == timeline_key(t),
{
    match t {
        TimelineType::Hybrid => "hybrid",
        TimelineType::Local => "local",
        TimelineType::Home => "home",
        TimelineType::Global => "global",
    }
}

fn append_account_head(out: &mut String, a: &Account)
    ensures
        final(out)@ == old(out)@ + account_head(*a),
{
    let ghost o0 = out@;
    out.append("[[accounts]]\n");
    out.append("name = \"");
    out.append(a.name.as_str());
    out.append("\"\n");
    out.append("host = \"");
    out.append(a.host.as_str());
    out.append("\"\n");
    assert(out@ =~= o0 + account_head(*a));
}

fn append_account_token_line(out: &mut String, a: &Account)
    ensures
        final(out)@ == old(out)@ + account_token_line(*a),
{
    let ghost o0 = out@;
    if let Some(t) = &a.token {
        let ob = obfuscate_token(t.as_str());
        out.append("token_obfuscated = \"");
        out.append(ob.as_str());
        out.append("\"\n");
    }
    assert(out@ =~= o0 + account_token_line(*a));
}

fn append_account_tail(out: &mut String, a: &Account)
    ensures
        final(out)@ == old(out)@ + account_tail(*a),
{
    let ghost o0 = out@;
    out.append("timeline = \"");
    out.append(timeline_key_exec(a.timeline));
    out.append("\"\n");
    out.append("enabled = ");
    out.append(bool_text_exec(a.enabled));
    out.append("\n");
    let ghost o1 = out@;
    out.append("text_color = [");
    let c0 = decimal_string(a.text_color[0] as u64);
    out.append(c0.as_str());
    out.append(", ");
    let c1 = decimal_string(a.text_color[1] as u64);
    out.append(c1.as_str());
    out.append(", ");
    let c2 = decimal_string(a.text_color[2] as u64);
    out.append(c2.as_str());
    out.append("]\n");
    out.append("\n");
    assert(out@ =~= o0 + account_tail(*a));
}

fn append_account_toml(out: &mut String, a: &Account)
    ensures
        final(out)@ == old(out)@ + account_toml(*a),
{
    let ghost o0 = out@;
    append_account_head(out, a);
    append_account_token_line(out, a);
    append_account_tail(out, a);
    assert(out@ =~= o0 + account_toml(*a));
}

impl AppConfig {
    /// The text of the settings file: the general settings, then one entry
    /// per account, each credential in its obfuscated form.
    pub fn to_toml(&self) -> (r: String)
        ensures
            r@ == config_toml(*self),
    {
        let mut out = String::from_str("# Misskey Post Viewer Configuration\n\n");
        out.append("active_account_index = ");
        let idx = decimal_string(self.active_account_index as u64);
        out.append(idx.as_str());
        out.append("\n");
        out.append("debug = ");
        out.append(bool_text_exec(self.debug));
        out.append("\n");
        if let Some(f) = &self.fallback_font {
            out.append("fallback_font = \"");
            out.append(f.as_str());
            out.append("\"\n");
        }
        out.append("\n");
        let ghost head = out@;
        for i in 0..self.accounts.len()
            invariant
                out@ == head + accounts_toml(self.accounts@.subrange(0, i as int)),
        {
            proof {
                assert(self.accounts@.subrange(0, i + 1).drop_last() =~= self.accounts@.subrange(
                    0,
                    i as int,
                ));
            }
            append_account_toml(&mut out, &self.accounts[i]);
            assert(out@ =~= head + accounts_toml(self.accounts@.subrange(0, i + 1)));
        }
        assert(self.accounts@.subrange(0, self.accounts@.len() as int) =~= self.accounts@);
        assert(out@ =~= config_toml(*self));
        out
    }
}

// ---------------------------------------------------------------------------
// Adding accounts
// ---------------------------------------------------------------------------

/// The name of an account added by a MiAuth login: the name typed in the
/// form where there is one, else the user name with the server in
/// parentheses, else the server alone.
pub open spec fn login_account_name(
    typed: Seq<char>,
    username: Option<Seq<char>>,
    host: Seq<char>,
) -> Seq<char> {
    if typed.len() > 0 {
        typed
    } else {
        match username {
            Some(u) => u + " ("@ + host + ")"@,
            None => host,
        }
    }
}

/// A newly added account on `host` named `name`: enabled, on the hybrid
/// timeline, in white, with credential `token`.
pub open spec fn is_new_account(
    a: Account,
    name: Seq<char>,
    host: Seq<char>,
    token: Option<Seq<char>>,
) -> bool {
    &&& a.name@ == name
    &&& a.host@ == host
    &&& opt_view(a.token) == token
    &&& a.token_raw is None
    &&& a.token_obfuscated is None
    &&& a.timeline == TimelineType::Hybrid
    &&& a.enabled
    &&& a.text_color@ == seq![255u8, 255u8, 255u8]
}

impl AppConfig {
    /// Applies a granted MiAuth login for the account at `index`: an index
    /// past the last account adds a new account on `host`, named after the
    /// typed name, the user name or the server; any other index gives that
    /// account the credential. Returns whether an account was added.
    pub fn apply_login(
        &mut self,
        index: usize,
        host: &str,
        token: String,
        username: Option<String>,
        typed_name: &str,
    ) -> (added: bool)
        ensures
            added == (index >= old(self).accounts@.len()),
            final(self).active_account_index == old(self).active_account_index,
            final(self).debug == old(self).debug,
            final(self).fallback_font == old(self).fallback_font,
            added ==> final(self).accounts@.len() == old(self).accounts@.len() + 1
                && final(self).accounts@.subrange(0, old(self).accounts@.len() as int)
                == old(self).accounts@ && is_new_account(
                final(self).accounts@.last(),
                login_account_name(typed_name@, opt_view(username), host@),
                host@,
                Some(token@),
            ),
            !added ==> final(self).accounts@ == old(self).accounts@.update(
                index as int,
                Account { token: Some(token), ..old(self).accounts@[index as int] },
            ),
    {
        if index >= self.accounts.len() {
            let name = if typed_name.unicode_len() > 0 {
                String::from_str(typed_name)
            } else {
                match username {
                    Some(u) => {
                        let mut n = u;
                        n.append(" (");
                        n.append(host);
                        n.append(")");
                        n
                    },
                    None => String::from_str(host),
                }
            };
            let a = Account::new(
                name,
                String::from_str(host),
                Some(token),
                TimelineType::Hybrid,
                true,
                default_text_color(),
            );
            let ghost a0 = self.accounts@;
            self.accounts.push(a);
            assert(self.accounts@.subrange(0, a0.len() as int) =~= a0);
            true
        } else {
            self.accounts[index].token = Some(token);
            false
        }
    }

    /// Adds the account typed into the settings form, where both its name and
    /// its server are given; an empty credential means none. Returns whether
    /// it was added.
    pub fn add_account_from_form(&mut self, name: &str, host: &str, token: &str) -> (added: bool)
        ensures
            added == (name@.len() > 0 && host@.len() > 0),
            final(self).active_account_index == old(self).active_account_index,
            final(self).debug == old(self).debug,
            final(self).fallback_font == old(self).fallback_font,
            added ==> final(self).accounts@.len() == old(self).accounts@.len() + 1
                && final(self).accounts@.subrange(0, old(self).accounts@.len() as int)
                == old(self).accounts@ && is_new_account(
                final(self).accounts@.last(),
                name@,
                host@,
                if token@.len() > 0 {
                    Some(token@)
                } else {
                    None
                },
            ),
            !added ==> final(self).accounts == old(self).accounts,
    {
        if name.unicode_len() == 0 || host.unicode_len() == 0 {
            return false;
        }
        let t = if token.unicode_len() == 0 {
            None
        } else {
            Some(String::from_str(token))
        };
        let a = Account::new(
            String::from_str(name),
            String::from_str(host),
            t,
            TimelineType::Hybrid,
            true,
            default_text_color(),
        );
        let ghost a0 = self.accounts@;
        self.accounts.push(a);
        assert(self.accounts@.subrange(0, a0.len() as int) =~= a0);
        true
    }
}

} // verus!
