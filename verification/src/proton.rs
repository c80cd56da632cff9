//! The decisions of the Proton backend that do not need the network: where
//! human verification is sent, and what each failure of the service means
//! to the person signing in or reading mail.

use vstd::prelude::*;

use crate::auth::SignInResult;
use crate::model::MailboxError;
use crate::service::AuthError;
use crate::text::{
    ascii_lower, chars_of, contains_text, has_infix, is_ascii_alnum, join_strings, joined, push_char,
    same_text, str_views, trim, trimmed,
};

verus! {

/// The page human verification opens when the service names none it can
/// be trusted with.
pub open spec fn verify_origin() -> Seq<char> {
    "https://verify.proton.me"@
}

/// Whether a byte is written as it is in a URL component.
pub open spec fn unreserved(b: u8) -> bool {
    ('0' as u8 <= b <= '9' as u8) || ('a' as u8 <= b <= 'z' as u8) || ('A' as u8 <= b <= 'Z' as u8)
        || b == '-' as u8 || b == '.' as u8 || b == '_' as u8 || b == '~' as u8
}

/// An upper-case hexadecimal digit.
pub open spec fn hex_digit(n: nat) -> char {
    if n < 10 {
        (('0' as u32) + n) as char
    } else {
        (('A' as u32) + n - 10) as char
    }
}

/// How one byte is written: as itself when unreserved, as `%` and two
/// upper-case hexadecimal digits otherwise.
pub open spec fn escaped(b: u8) -> Seq<char> {
    if unreserved(b) {
        seq![b as char]
    } else {
        seq!['%', hex_digit((b / 16) as nat), hex_digit((b % 16) as nat)]
    }
}

/// The bytes, percent-encoded.
pub open spec fn percent_encoded(bytes: Seq<u8>) -> Seq<char>
    decreases bytes.len(),
{
    if bytes.len() == 0 {
        Seq::<char>::empty()
    } else {
        percent_encoded(bytes.drop_last()) + escaped(bytes.last())
    }
}

fn hex_char(n: u8) -> (c: char)
    requires
        n < 16,
    ensures
        c == hex_digit(n as nat),
{
    if n < 10 {
        (n + 48) as char
    } else {
        (n + 55) as char
    }
}

/// The UTF-8 bytes of a text, percent-encoded for a query string.
pub fn percent_encode(value: &str) -> (r: String)
    ensures
        r@ == percent_encoded(vstd::utf8::encode_utf8(value@)),
{
    let bytes = value.as_bytes();
    let mut out = String::new();
    let mut i: usize = 0;
    while i < bytes.len()
        invariant
            i <= bytes@.len(),
            bytes@ == vstd::utf8::encode_utf8(value@),
            out@ == percent_encoded(bytes@.take(i as int)),
        decreases bytes.len() - i,
    {
        let b = bytes[i];
        proof {
            assert(bytes@.take(i + 1).drop_last() =~= bytes@.take(i as int));
            assert(bytes@.take(i + 1).last() == b);
        }
        if (48 <= b && b <= 57) || (97 <= b && b <= 122) || (65 <= b && b <= 90) || b == 45 || b == 46 || b == 95
            || b == 126 {
            push_char(&mut out, b as char);
        } else {
            push_char(&mut out, '%');
            push_char(&mut out, hex_char(b / 16));
            push_char(&mut out, hex_char(b % 16));
        }
        i += 1;
    }
    assert(bytes@.take(bytes@.len() as int) =~= bytes@);
    out
}

/// Whether a host may be sent to: letters, digits, dots and hyphens only,
/// and Proton's own domain or one under it.
pub open spec fn trusted_host(host: Seq<char>) -> bool {
    &&& forall|i: int| 0 <= i < host.len() ==> (is_ascii_alnum(#[trigger] host[i]) || host[i] == '.' || host[i] == '-')
    &&& (host == "proton.me"@ || (host.len() >= 10 && host.skip(host.len() - 10) == ".proton.me"@))
}

/// The host of an `https://` address: what comes before its path, query
/// or fragment.
pub open spec fn https_host(url: Seq<char>) -> Option<Seq<char>> {
    if url.len() >= 8 && url.take(8) == "https://"@ {
        let rest = url.skip(8);
        Some(rest.take(host_end(rest)))
    } else {
        None
    }
}

/// Where the host ends: at the first `/`, `?` or `#`.
pub open spec fn host_end(rest: Seq<char>) -> int
    decreases rest.len(),
{
    if rest.len() == 0 {
        0
    } else if rest[0] == '/' || rest[0] == '?' || rest[0] == '#' {
        0
    } else {
        1 + host_end(rest.drop_first())
    }
}

/// The page human verification opens: on the host the service named when
/// that is Proton's over HTTPS, on Proton's own page otherwise; with the
/// captcha method and the token, encoded.
pub open spec fn verification_text(web_url: Seq<char>, token: Seq<char>) -> Seq<char> {
    let origin = match https_host(web_url) {
        Some(host) => if trusted_host(host) {
            "https://"@ + host
        } else {
            verify_origin()
        },
        None => verify_origin(),
    };
    origin + "/?methods=captcha&token="@ + percent_encoded(vstd::utf8::encode_utf8(token))
}

proof fn lemma_host_end(rest: Seq<char>, j: int)
    requires
        0 <= j <= rest.len(),
        forall|k: int| 0 <= k < j ==> !(rest[k] == '/' || rest[k] == '?' || rest[k] == '#'),
        j == rest.len() || rest[j] == '/' || rest[j] == '?' || rest[j] == '#',
    ensures
        host_end(rest) == j,
    decreases j,
{
    if j > 0 {
        let t = rest.drop_first();
        assert forall|k: int| 0 <= k < j - 1 implies !(t[k] == '/' || t[k] == '?' || t[k] == '#') by {
            assert(t[k] == rest[k + 1]);
        }
        lemma_host_end(t, j - 1);
    }
}

/// The page human verification opens.
pub fn verification_url(web_url: &str, token: &str) -> (r: String)
    ensures
        r@ == verification_text(web_url@, token@),
{
    proof {
        reveal_strlit("https://");
        reveal_strlit("https://verify.proton.me");
        reveal_strlit("/?methods=captcha&token=");
        reveal_strlit("proton.me");
        reveal_strlit(".proton.me");
    }
    let v = chars_of(web_url);
    let prefix = chars_of("https://");
    let mut origin = "https://verify.proton.me".to_owned();
    let mut starts = v.len() >= 8;
    let mut i: usize = 0;
    while starts && i < 8
        invariant
            i <= 8,
            prefix@ == "https://"@,
            prefix@.len() == 8,
            starts ==> v@.len() >= 8,
            starts ==> forall|k: int| 0 <= k < i ==> v@[k] == prefix@[k],
            !starts ==> !(v@.len() >= 8 && v@.take(8) == "https://"@),
        decreases 8 - i,
    {
        if v[i] != prefix[i] {
            proof {
                if v@.take(8) == "https://"@ {
                    assert(v@.take(8)[i as int] == v@[i as int]);
                }
            }
            starts = false;
        }
        i += 1;
    }
    if starts {
        assert(v@.take(8) =~= "https://"@);
        let mut host: Vec<char> = Vec::new();
        let mut j: usize = 8;
        while j < v.len() && v[j] != '/' && v[j] != '?' && v[j] != '#'
            invariant
                8 <= j <= v.len(),
                host@ == v@.subrange(8, j as int),
                forall|k: int| 8 <= k < j ==> !(v@[k] == '/' || v@[k] == '?' || v@[k] == '#'),
            decreases v.len() - j,
        {
            host.push(v[j]);
            j += 1;
            assert(host@ =~= v@.subrange(8, j as int));
        }
        proof {
            let rest = v@.skip(8);
            assert forall|k: int| 0 <= k < j - 8 implies !(rest[k] == '/' || rest[k] == '?' || rest[k] == '#') by {
                assert(rest[k] == v@[k + 8]);
            }
            lemma_host_end(rest, j - 8);
            assert(rest.take(j - 8) =~= host@);
        }
        let mut ok = true;
        let mut k: usize = 0;
        while k < host.len()
            invariant
                k <= host.len(),
                ok == forall|m: int| 0 <= m < k ==> (is_ascii_alnum(#[trigger] host@[m]) || host@[m] == '.' || host@[m] == '-'),
            decreases host.len() - k,
        {
            let c = host[k];
            if !(crate::text::ascii_alnum(c) || c == '.' || c == '-') {
                ok = false;
            }
            k += 1;
        }
        let host_text = crate::text::string_of(&host);
        let n = host.len();
        let exact = same_text(host_text.as_str(), "proton.me");
        let mut under = false;
        if n >= 10 {
            let mut tail: Vec<char> = Vec::new();
            let mut m = n - 10;
            while m < n
                invariant
                    n >= 10,
                    n - 10 <= m <= n,
                    n == host@.len(),
                    tail@ == host@.subrange(n - 10, m as int),
                decreases n - m,
            {
                tail.push(host[m]);
                m += 1;
                assert(tail@ =~= host@.subrange(n - 10, m as int));
            }
            under = same_text(crate::text::string_of(&tail).as_str(), ".proton.me");
            assert(host@.skip(n - 10) =~= tail@);
        }
        if ok && (exact || under) {
            origin = "https://".to_owned().concat(host_text.as_str());
        }
    }
    origin.concat("/?methods=captcha&token=").concat(percent_encode(token).as_str())
}

/// A failure the Proton client reports, as plain values: what the sign-in
/// and mailbox decisions read of it.
#[derive(Debug, Clone, PartialEq, Eq)]
pub enum ServiceError {
    /// The session is not, or no longer, signed in.
    Unauthorized,
    /// The service answered with an error.
    Api { http_status: u16, code: i64, message: String },
    /// The request did not reach the service.
    Http,
    /// The service asks for human verification.
    HumanVerification,
    /// The stored session could not be read or written.
    Session,
    /// Reading or writing local data failed.
    Io,
    /// Decryption or key unlocking failed, with what it said.
    Crypto(String),
    /// Anything else, with what it said.
    Other(String),
    /// A failure none of the above describes.
    Unknown,
}

/// What a running sign-in reports when it was called off.
pub open spec fn sign_in_cancelled() -> Seq<char> {
    "sign-in cancelled"@
}

/// The text, with ASCII letters in lower case.
pub open spec fn ascii_lowered(s: Seq<char>) -> Seq<char> {
    s.map_values(|c: char| ascii_lower(c))
}

/// Whether a message from the service talks about the second factor.
pub open spec fn mentions_totp_spec(message: Seq<char>) -> bool {
    let m = ascii_lowered(message);
    has_infix(m, "totp"@) || has_infix(m, "two-factor"@) || has_infix(m, "2fa"@)
}

/// Whether a message from the service talks about the credentials.
pub open spec fn mentions_credentials_spec(message: Seq<char>) -> bool {
    let m = ascii_lowered(message);
    has_infix(m, "credential"@) || has_infix(m, "username"@) || has_infix(m, "password"@)
}

/// The text with ASCII letters in lower case.
fn to_ascii_lowercase(s: &str) -> (r: String)
    ensures
        r@ == ascii_lowered(s@),
{
    let v = chars_of(s);
    let mut out = String::new();
    let mut i: usize = 0;
    while i < v.len()
        invariant
            i <= v.len(),
            out@ == ascii_lowered(v@.take(i as int)),
        decreases v.len() - i,
    {
        push_char(&mut out, crate::text::to_ascii_lower(v[i]));
        i += 1;
        assert(out@ =~= ascii_lowered(v@.take(i as int)));
    }
    assert(v@.take(v.len() as int) =~= v@);
    out
}

pub fn mentions_totp(message: &str) -> (r: bool)
    ensures
        r == mentions_totp_spec(message@),
{
    let m = to_ascii_lowercase(message);
    contains_text(m.as_str(), "totp") || contains_text(m.as_str(), "two-factor") || contains_text(m.as_str(), "2fa")
}

pub fn mentions_credentials(message: &str) -> (r: bool)
    ensures
        r == mentions_credentials_spec(message@),
{
    let m = to_ascii_lowercase(message);
    contains_text(m.as_str(), "credential") || contains_text(m.as_str(), "username") || contains_text(m.as_str(), "password")
}

/// What a failure means to a mailbox: a lost session, no connection, a
/// refusal by the service, or anything else.
pub open spec fn mailbox_error_of(e: ServiceError) -> MailboxError {
    match e {
        ServiceError::Unauthorized => MailboxError::SessionExpired,
        ServiceError::Api { http_status, .. } => if http_status == 401 {
            MailboxError::SessionExpired
        } else {
            MailboxError::Service
        },
        ServiceError::Http => MailboxError::Connection,
        ServiceError::HumanVerification => MailboxError::Service,
        _ => MailboxError::Unavailable,
    }
}

pub fn map_mailbox_error(error: &ServiceError) -> (r: MailboxError)
    ensures
        r == mailbox_error_of(*error),
{
    match error {
        ServiceError::Unauthorized => MailboxError::SessionExpired,
        ServiceError::Api { http_status, .. } => if *http_status == 401 {
            MailboxError::SessionExpired
        } else {
            MailboxError::Service
        },
        ServiceError::Http => MailboxError::Connection,
        ServiceError::HumanVerification => MailboxError::Service,
        _ => MailboxError::Unavailable,
    }
}

/// What a failure means when nothing more specific applies.
pub open spec fn auth_error_of(e: ServiceError) -> AuthError {
    match e {
        ServiceError::HumanVerification => AuthError::HumanVerificationRequired,
        ServiceError::Http => AuthError::Connection,
        ServiceError::Session => AuthError::SessionUnavailable,
        ServiceError::Io => AuthError::SessionUnavailable,
        ServiceError::Api { http_status, code, .. } => AuthError::Service { http_status, code },
        ServiceError::Other(m) => if has_infix(m@, "FIDO2/WebAuthn"@) {
            AuthError::SecurityKeyUnsupported
        } else {
            AuthError::AuthenticationUnavailable
        },
        _ => AuthError::AuthenticationUnavailable,
    }
}

pub fn map_error(error: &ServiceError) -> (r: AuthError)
    ensures
        r == auth_error_of(*error),
{
    match error {
        ServiceError::HumanVerification => AuthError::HumanVerificationRequired,
        ServiceError::Http => AuthError::Connection,
        ServiceError::Session | ServiceError::Io => AuthError::SessionUnavailable,
        ServiceError::Api { http_status, code, .. } => AuthError::Service { http_status: *http_status, code: *code },
        ServiceError::Other(m) => if contains_text(m.as_str(), "FIDO2/WebAuthn") {
            AuthError::SecurityKeyUnsupported
        } else {
            AuthError::AuthenticationUnavailable
        },
        _ => AuthError::AuthenticationUnavailable,
    }
}

/// How a failed sign-in ends: called off, waiting for the mailbox
/// password, or failed for a reason the person can act on. A refused code
/// or mailbox password is told apart from refused credentials only when
/// one was given.
pub open spec fn sign_in_error_of(e: ServiceError, has_totp: bool, has_mailbox_password: bool) -> SignInResult {
    match e {
        ServiceError::Other(m) => if m@ == sign_in_cancelled() {
            SignInResult::Cancelled
        } else if has_infix(m@, "this account uses a separate mailbox password"@) {
            SignInResult::NeedsMailboxPassword
        } else if has_infix(m@, "FIDO2/WebAuthn"@) {
            SignInResult::Failed(AuthError::SecurityKeyUnsupported)
        } else {
            SignInResult::Failed(auth_error_of(e))
        },
        ServiceError::HumanVerification => SignInResult::Failed(AuthError::HumanVerificationRequired),
        ServiceError::Unauthorized => if has_totp {
            SignInResult::Failed(AuthError::InvalidTotp)
        } else {
            SignInResult::Failed(AuthError::InvalidCredentials)
        },
        ServiceError::Api { http_status, message, .. } => if has_totp && mentions_totp_spec(message@) {
            SignInResult::Failed(AuthError::InvalidTotp)
        } else if http_status == 401 || http_status == 403 || mentions_credentials_spec(message@) {
            SignInResult::Failed(AuthError::InvalidCredentials)
        } else {
            SignInResult::Failed(auth_error_of(e))
        },
        ServiceError::Crypto(m) => if has_mailbox_password && has_infix(m@, "no user key could be unlocked"@) {
            SignInResult::Failed(AuthError::InvalidMailboxPassword)
        } else {
            SignInResult::Failed(auth_error_of(e))
        },
        _ => SignInResult::Failed(auth_error_of(e)),
    }
}

pub fn map_sign_in_error(error: &ServiceError, has_totp: bool, has_mailbox_password: bool) -> (r: SignInResult)
    ensures
        r == sign_in_error_of(*error, has_totp, has_mailbox_password),
{
    match error {
        ServiceError::Other(m) => {
            if same_text(m.as_str(), "sign-in cancelled") {
                SignInResult::Cancelled
            } else if contains_text(m.as_str(), "this account uses a separate mailbox password") {
                SignInResult::NeedsMailboxPassword
            } else if contains_text(m.as_str(), "FIDO2/WebAuthn") {
                SignInResult::Failed(AuthError::SecurityKeyUnsupported)
            } else {
                SignInResult::Failed(map_error(error))
            }
        },
        ServiceError::HumanVerification => SignInResult::Failed(AuthError::HumanVerificationRequired),
        ServiceError::Unauthorized => if has_totp {
            SignInResult::Failed(AuthError::InvalidTotp)
        } else {
            SignInResult::Failed(AuthError::InvalidCredentials)
        },
        ServiceError::Api { http_status, message, .. } => {
            if has_totp && mentions_totp(message.as_str()) {
                SignInResult::Failed(AuthError::InvalidTotp)
            } else if *http_status == 401 || *http_status == 403 || mentions_credentials(message.as_str()) {
                SignInResult::Failed(AuthError::InvalidCredentials)
            } else {
                SignInResult::Failed(map_error(error))
            }
        },
        ServiceError::Crypto(m) => {
            if has_mailbox_password && contains_text(m.as_str(), "no user key could be unlocked") {
                SignInResult::Failed(AuthError::InvalidMailboxPassword)
            } else {
                SignInResult::Failed(map_error(error))
            }
        },
        _ => SignInResult::Failed(map_error(error)),
    }
}


/// The host human verification opens on: the one the service named when
/// it is Proton's and reached over HTTPS, Proton's own page otherwise.
pub open spec fn verification_host(web_url: Seq<char>) -> Seq<char> {
    match https_host(web_url) {
        Some(host) => if trusted_host(host) {
            host
        } else {
            "verify.proton.me"@
        },
        None => "verify.proton.me"@,
    }
}

/// Human verification always opens on Proton over HTTPS, and the token
/// only ever goes into the query, encoded.
pub proof fn law_verification_stays_on_proton(web_url: Seq<char>, token: Seq<char>)
    ensures
        verification_host(web_url) == "verify.proton.me"@ || trusted_host(verification_host(web_url)),
        verification_text(web_url, token) == "https://"@ + verification_host(web_url) + "/?methods=captcha&token="@
            + percent_encoded(vstd::utf8::encode_utf8(token)),
{
    reveal_strlit("https://");
    reveal_strlit("verify.proton.me");
    reveal_strlit("https://verify.proton.me");
    assert(verify_origin() =~= "https://"@ + "verify.proton.me"@);
}

/// Percent-encoding leaves nothing but unreserved characters and escapes.
pub proof fn law_encoding_is_safe(bytes: Seq<u8>)
    ensures
        forall|i: int|
            0 <= i < percent_encoded(bytes).len() ==> {
                let c = #[trigger] percent_encoded(bytes)[i];
                is_ascii_alnum(c) || c == '-' || c == '.' || c == '_' || c == '~' || c == '%'
            },
    decreases bytes.len(),
{
    if bytes.len() > 0 {
        law_encoding_is_safe(bytes.drop_last());
        let p = percent_encoded(bytes.drop_last());
        let b = bytes.last();
        let e = escaped(b);
        assert forall|i: int| 0 <= i < e.len() implies {
            let c = #[trigger] e[i];
            is_ascii_alnum(c) || c == '-' || c == '.' || c == '_' || c == '~' || c == '%'
        } by {
            if unreserved(b) {
                assert(e[i] == b as char);
            } else {
                assert(b / 16 < 16);
                assert(b % 16 < 16);
            }
        }
        assert forall|i: int| 0 <= i < percent_encoded(bytes).len() implies {
            let c = #[trigger] percent_encoded(bytes)[i];
            is_ascii_alnum(c) || c == '-' || c == '.' || c == '_' || c == '~' || c == '%'
        } by {
            if i < p.len() {
                assert(percent_encoded(bytes)[i] == p[i]);
            } else {
                assert(percent_encoded(bytes)[i] == e[i - p.len()]);
            }
        }
    }
}

/// How many correspondents a row names before it says there are more.
pub const MAX_LISTED_CORRESPONDENTS: usize = 3;

/// Someone a message went from or to, as the service reports them.
#[derive(Debug, Clone, PartialEq, Eq)]
pub struct Recipient {
    pub name: String,
    pub address: String,
}

/// How a person is named: the trimmed name, else the trimmed address;
/// nobody when both are blank.
pub open spec fn person_name(p: Recipient) -> Option<Seq<char>> {
    if trimmed(p.name@).len() > 0 {
        Some(trimmed(p.name@))
    } else if trimmed(p.address@).len() > 0 {
        Some(trimmed(p.address@))
    } else {
        None
    }
}

/// The names of the people who have one, in order.
pub open spec fn named_people(people: Seq<Recipient>) -> Seq<Seq<char>>
    decreases people.len(),
{
    if people.len() == 0 {
        Seq::empty()
    } else {
        let rest = named_people(people.drop_last());
        match person_name(people.last()) {
            Some(n) => rest.push(n),
            None => rest,
        }
    }
}

/// The correspondents a row names: the first three, and an ellipsis when
/// there are more; nobody when no one has a name or address.
pub open spec fn display_names_spec(people: Seq<Recipient>) -> Option<Seq<char>> {
    let names = named_people(people);
    if names.len() == 0 {
        None
    } else if names.len() <= MAX_LISTED_CORRESPONDENTS {
        Some(joined(names, ", "@))
    } else {
        Some(joined(names.take(MAX_LISTED_CORRESPONDENTS as int), ", "@) + ", …"@)
    }
}

pub fn display_names(people: &Vec<Recipient>) -> (r: Option<String>)
    ensures
        opt_string_view(r) == display_names_spec(people@),
{
    let mut names: Vec<String> = Vec::new();
    let mut i: usize = 0;
    while i < people.len()
        invariant
            i <= people.len(),
            str_views(names@) == named_people(people@.take(i as int)),
        decreases people.len() - i,
    {
        assert(people@.take(i + 1).drop_last() == people@.take(i as int));
        let name = trim(people[i].name.as_str());
        let address = trim(people[i].address.as_str());
        let ghost before = names@;
        if !name.as_str().is_empty() {
            names.push(name);
            assert(str_views(names@) =~= str_views(before).push(names@[names.len() - 1]@));
        } else if !address.as_str().is_empty() {
            names.push(address);
            assert(str_views(names@) =~= str_views(before).push(names@[names.len() - 1]@));
        }
        i += 1;
    }
    assert(people@.take(people.len() as int) == people@);
    if names.len() == 0 {
        return None;
    }
    if names.len() <= MAX_LISTED_CORRESPONDENTS {
        return Some(join_strings(&names, ", "));
    }
    let mut listed: Vec<String> = Vec::new();
    let mut k: usize = 0;
    while k < MAX_LISTED_CORRESPONDENTS
        invariant
            k <= MAX_LISTED_CORRESPONDENTS < names.len(),
            str_views(listed@) == str_views(names@).take(k as int),
        decreases MAX_LISTED_CORRESPONDENTS - k,
    {
        let ghost before = listed@;
        listed.push(names[k].clone());
        assert(str_views(listed@) =~= str_views(before).push(names@[k as int]@));
        assert(str_views(names@).take(k + 1) =~= str_views(names@).take(k as int).push(names@[k as int]@));
        k += 1;
    }
    let shown = join_strings(&listed, ", ");
    Some(shown.concat(", …"))
}

pub open spec fn opt_string_view(o: Option<String>) -> Option<Seq<char>> {
    match o {
        Some(s) => Some(s@),
        None => None,
    }
}

} // verus!
