//! The MiAuth login flow: a session with a random identifier, the page where
//! the user grants access, and the endpoint that is polled for the result.

use vstd::prelude::*;
use vstd::string::*;
use vstd::utf8::*;
use rand::Rng;

verus! {

broadcast use vstd::string::group_string_axioms;

/// A pending MiAuth login.
#[derive(Debug, Clone)]
pub struct MiAuthSession {
    pub session_id: String,
    pub url: String,
    pub host: String,
}

/// The characters a session identifier is drawn from.
pub open spec fn id_charset() -> Seq<char> {
    "abcdefghijklmnopqrstuvwxyzABCDEFGHIJKLMNOPQRSTUVWXYZ0123456789"@
}

/// A byte that percent-encoding leaves as it is.
pub open spec fn unreserved(b: u8) -> bool {
    (48 <= b <= 57) || (65 <= b <= 90) || (97 <= b <= 122) || b == 45 || b == 46 || b == 95 || b
        == 126
}

pub open spec fn hex_upper() -> Seq<char> {
    seq!['0', '1', '2', '3', '4', '5', '6', '7', '8', '9', 'A', 'B', 'C', 'D', 'E', 'F']
}

/// The encoding of one byte: itself where unreserved, else `%` and two
/// upper-case hex digits.
pub open spec fn byte_encoded(b: u8) -> Seq<char> {
    if unreserved(b) {
        seq![b as char]
    } else {
        seq!['%', hex_upper()[(b / 16) as int], hex_upper()[(b % 16) as int]]
    }
}

/// The percent-encoding of bytes, byte by byte.
pub open spec fn percent_encoded(b: Seq<u8>) -> Seq<char>
    decreases b.len(),
{
    if b.len() == 0 {
        Seq::empty()
    } else {
        percent_encoded(b.drop_last()) + byte_encoded(b.last())
    }
}

/// Relies on `urlencoding::encode`: every UTF-8 byte of `s` but the ASCII
/// alphanumerics and `-`, `.`, `_`, `~` becomes `%XX`.
#[verifier::external_body]
fn url_encode(s: &str) -> (r: String)
    ensures
        r@ == percent_encoded(encode_utf8(s@)),
{
    urlencoding::encode(s).into_owned()
}

/// Relies on `rand::rng` and `Rng::random_range`: a random index below `n`.
#[verifier::external_body]
fn random_index(n: usize) -> (r: usize)
    requires
        n > 0,
    ensures
        r < n,
{
    rand::rng().random_range(0..n)
}

/// `parts` joined by commas.
pub open spec fn comma_joined(parts: Seq<Seq<char>>) -> Seq<char>
    decreases parts.len(),
{
    if parts.len() == 0 {
        Seq::empty()
    } else if parts.len() == 1 {
        parts[0]
    } else {
        comma_joined(parts.drop_last()) + seq![','] + parts.last()
    }
}

pub open spec fn str_views(v: Seq<&str>) -> Seq<Seq<char>> {
    v.map_values(|s: &str| s@)
}

/// The page on which the user grants the application access.
pub open spec fn auth_url(
    host: Seq<char>,
    session: Seq<char>,
    app_name: Seq<char>,
    description: Option<Seq<char>>,
    permissions: Seq<Seq<char>>,
) -> Seq<char> {
    "https://"@ + host + "/miauth/"@ + session + "?name="@ + percent_encoded(encode_utf8(app_name))
        + match description {
        Some(d) => "&description="@ + percent_encoded(encode_utf8(d)),
        None => Seq::<char>::empty(),
    } + if permissions.len() > 0 {
        "&permission="@ + comma_joined(permissions)
    } else {
        Seq::<char>::empty()
    }
}

fn join_commas(parts: &[&str]) -> (r: String)
    ensures
        r@ == comma_joined(str_views(parts@)),
{
    let mut r = String::new();
    for i in 0..parts.len()
        invariant
            r@ == comma_joined(str_views(parts@.subrange(0, i as int))),
    {
        proof {
            let pre = str_views(parts@.subrange(0, i + 1));
            assert(pre.drop_last() =~= str_views(parts@.subrange(0, i as int)));
            assert(pre.last() == parts@[i as int]@);
            reveal_strlit(",");
            assert(","@ =~= seq![',']);
        }
        if i > 0 {
            r.append(",");
        }
        r.append(parts[i]);
    }
    assert(parts@.subrange(0, parts@.len() as int) =~= parts@);
    r
}

fn random_session_id() -> (r: String)
    ensures
        r@.len() == 16,
        forall|i: int| 0 <= i < 16 ==> id_charset().contains(#[trigger] r@[i]),
{
    let charset = "abcdefghijklmnopqrstuvwxyzABCDEFGHIJKLMNOPQRSTUVWXYZ0123456789";
    proof {
        reveal_strlit("abcdefghijklmnopqrstuvwxyzABCDEFGHIJKLMNOPQRSTUVWXYZ0123456789");
    }
    let mut r = String::new();
    for k in 0..16usize
        invariant
            charset@ == id_charset(),
            charset@.len() == 62,
            r@.len() == k,
            forall|i: int| 0 <= i < k ==> id_charset().contains(#[trigger] r@[i]),
    {
        let idx = random_index(62);
        let c = charset.substring_char(idx, idx + 1);
        let ghost r0 = r@;
        r.append(c);
        proof {
            assert(c@[0] == id_charset()[idx as int]);
            assert(r@[k as int] == c@[0]);
            assert forall|i: int| 0 <= i < k + 1 implies id_charset().contains(#[trigger] r@[i]) by {
                if i < k {
                    assert(r@[i] == r0[i]);
                } else {
                    assert(id_charset()[idx as int] == r@[i]);
                }
            }
        }
    }
    r
}

impl MiAuthSession {
    /// A new login session on `host` for the application `app_name`, asking
    /// for `permissions`; its identifier is 16 random letters and digits.
    pub fn new(host: &str, app_name: &str, description: Option<&str>, permissions: &[&str]) -> (r:
        Self)
        ensures
            r.host@ == host@,
            r.session_id@.len() == 16,
            forall|i: int| 0 <= i < 16 ==> id_charset().contains(#[trigger] r.session_id@[i]),
            r.url@ == auth_url(
                host@,
                r.session_id@,
                app_name@,
                match description {
                    Some(d) => Some(d@),
                    None => None,
                },
                str_views(permissions@),
            ),
    {
        let session_id = random_session_id();
        let mut url = String::from_str("https://");
        url.append(host);
        url.append("/miauth/");
        url.append(session_id.as_str());
        url.append("?name=");
        let name = url_encode(app_name);
        url.append(name.as_str());
        let ghost u1 = url@;
        if let Some(d) = description {
            url.append("&description=");
            let e = url_encode(d);
            url.append(e.as_str());
        }
        let ghost u2 = url@;
        if permissions.len() > 0 {
            url.append("&permission=");
            let j = join_commas(permissions);
            url.append(j.as_str());
        }
        assert(url@ =~= auth_url(
            host@,
            session_id@,
            app_name@,
            match description {
                Some(d) => Some(d@),
                None => None,
            },
            str_views(permissions@),
        ));
        MiAuthSession { session_id, url, host: String::from_str(host) }
    }

    /// The endpoint polled to learn whether the user granted access.
    pub fn check_url(&self) -> (r: String)
        ensures
            r@ == "https://"@ + self.host@ + "/api/miauth/"@ + self.session_id@ + "/check"@,
    {
        let mut r = String::from_str("https://");
        r.append(self.host.as_str());
        r.append("/api/miauth/");
        r.append(self.session_id.as_str());
        r.append("/check");
        r
    }
}

} // verus!
