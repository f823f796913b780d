//! Accounts of the API gateway: registration and login with salted Argon2id password
//! hashes, and the signed tokens handed out on success.
use vstd::prelude::*;
use vstd::utf8::encode_utf8;
use crate::keyed::{KeyedVec, Snapshot};
use crate::random::{is_uuid_v4_text, new_uuid, random_salt};
use crate::time::{Timestamp, now};

verus! {

/// Seconds for which a token stays valid.
pub const TOKEN_LIFETIME_SECS: i64 = 86_400;
/// Length of a password salt, in bytes.
pub const SALT_LEN: usize = crate::random::RANDOM_SALT_LEN;
/// Longest password, in bytes, that Argon2 accepts.
pub const ARGON2_MAX_PWD_LEN: usize = 0xFFFF_FFFF;
/// Shortest salt, in bytes, that Argon2 accepts.
pub const ARGON2_MIN_SALT_LEN: usize = 8;
/// Longest salt, in bytes, that Argon2 accepts.
pub const ARGON2_MAX_SALT_LEN: usize = 0xFFFF_FFFF;

/// The claims carried by a token.
#[derive(Debug, Clone)]
pub struct Claims {
    pub sub: String,
    pub email: String,
    pub exp: usize,
    pub iat: usize,
}

/// A registered account.
#[derive(Debug)]
pub struct StoredUser {
    pub id: String,
    pub email: String,
    pub password_hash: String,
    pub password_salt: Vec<u8>,
    pub public_key: Vec<u8>,
    pub display_name: String,
    pub created_at: Timestamp,
}

/// What an account holds, as plain values.
pub struct StoredUserView {
    pub id: Seq<char>,
    pub email: Seq<char>,
    pub password_hash: Seq<char>,
    pub password_salt: Seq<u8>,
    pub public_key: Seq<u8>,
    pub display_name: Seq<char>,
    pub created_at: Timestamp,
}

impl View for StoredUser {
    type V = StoredUserView;

    open spec fn view(&self) -> StoredUserView {
        StoredUserView {
            id: self.id@,
            email: self.email@,
            password_hash: self.password_hash@,
            password_salt: self.password_salt@,
            public_key: self.public_key@,
            display_name: self.display_name@,
            created_at: self.created_at,
        }
    }
}

impl Snapshot for StoredUser {
    fn snapshot(&self) -> (r: StoredUser) {
        let password_salt = self.password_salt.clone();
        assert(password_salt@ =~= self.password_salt@);
        let public_key = self.public_key.clone();
        assert(public_key@ =~= self.public_key@);
        StoredUser {
            id: self.id.clone(),
            email: self.email.clone(),
            password_hash: self.password_hash.clone(),
            password_salt,
            public_key,
            display_name: self.display_name.clone(),
            created_at: self.created_at,
        }
    }
}

/// The lower-case hexadecimal digit for `d < 16`.
pub open spec fn hex_char(d: nat) -> char {
    if d < 10 {
        (d + 48) as char
    } else {
        (d + 87) as char
    }
}

/// Lower-case hexadecimal text of `bytes`, two digits per byte, high digit first.
pub open spec fn hex_lower(bytes: Seq<u8>) -> Seq<char>
    decreases bytes.len(),
{
    if bytes.len() == 0 {
        Seq::empty()
    } else {
        hex_lower(bytes.drop_last()) + seq![
            hex_char(bytes.last() as nat / 16),
            hex_char(bytes.last() as nat % 16),
        ]
    }
}

/// `hex::encode`: the lower-case hexadecimal text of `bytes`.
#[verifier::external_body]
fn hex_encode(bytes: &[u8]) -> (s: String)
    ensures
        s@ == hex_lower(bytes@),
{
    hex::encode(bytes)
}

/// The 32-byte Argon2id digest (default parameters, version 0x13) of a password and salt.
pub uninterp spec fn argon2id_digest(password: Seq<u8>, salt: Seq<u8>) -> Seq<u8>;

/// Argon2 accepts a password and salt of these lengths.
pub open spec fn argon2_accepts(password: Seq<u8>, salt: Seq<u8>) -> bool {
    password.len() <= ARGON2_MAX_PWD_LEN && ARGON2_MIN_SALT_LEN <= salt.len() <= ARGON2_MAX_SALT_LEN
}

/// The message of the error that Argon2 reports for lengths it does not accept.
pub open spec fn argon2_refusal(password: Seq<u8>, salt: Seq<u8>) -> Seq<char> {
    if password.len() > ARGON2_MAX_PWD_LEN {
        "password is too long"@
    } else if salt.len() < ARGON2_MIN_SALT_LEN {
        "salt is too short"@
    } else {
        "salt is too long"@
    }
}

/// `argon2::Argon2::default().hash_password_into` with a 32-byte output. It fails exactly
/// when the password or salt length is out of range, with that error's message; otherwise
/// the digest depends on the password and salt alone.
#[verifier::external_body]
fn argon2_hash(password: &[u8], salt: &[u8]) -> (r: Result<Vec<u8>, String>)
    ensures
        r is Ok <==> argon2_accepts(password@, salt@),
        (r matches Ok(h) ==> h@ == argon2id_digest(password@, salt@) && h@.len() == 32),
        (r matches Err(e) ==> e@ == argon2_refusal(password@, salt@)),
{
    let mut hash = [0u8; 32];
    match argon2::Argon2::default().hash_password_into(password, salt, &mut hash) {
        Ok(()) => Ok(hash.to_vec()),
        Err(e) => Err(e.to_string()),
    }
}

/// The HS256 token that `jsonwebtoken::encode` produces, with the default header, for the
/// claims `{"sub", "email", "exp", "iat"}` (in that order) and the given secret.
pub uninterp spec fn jwt_hs256_token(sub: Seq<char>, email: Seq<char>, exp: usize, iat: usize, secret: Seq<char>) -> Seq<char>;

/// `jsonwebtoken::encode` with the default (HS256) header and a key from `secret`, of the
/// JSON object of the claims. With an HMAC key and header it cannot fail; the token depends
/// on the claims and the secret alone.
#[verifier::external_body]
fn jwt_encode(sub: &str, email: &str, exp: usize, iat: usize, secret: &str) -> (r: Result<String, String>)
    ensures
        r is Ok,
        (r matches Ok(t) ==> t@ == jwt_hs256_token(sub@, email@, exp, iat, secret@)),
{
    let mut claims = serde_json::Map::new();
    claims.insert("sub".to_string(), serde_json::Value::from(sub));
    claims.insert("email".to_string(), serde_json::Value::from(email));
    claims.insert("exp".to_string(), serde_json::Value::from(exp));
    claims.insert("iat".to_string(), serde_json::Value::from(iat));
    let key = jsonwebtoken::EncodingKey::from_secret(secret.as_bytes());
    jsonwebtoken::encode(&jsonwebtoken::Header::default(), &claims, &key).map_err(|e| e.to_string())
}

/// `jsonwebtoken::decode` of `token` with an HS256 key from `secret` and the default
/// validation without its expiry check (so the signature, the algorithm and the presence of
/// an `exp` claim are checked, and the clock is not read), then the `sub`, `email`, `exp` and
/// `iat` claims read as text, text, and two unsigned integers. Every failure is reported as
/// `invalid token: ` and the error's text (`JSON error: ...` for claims of the wrong
/// shape); a token that `jsonwebtoken::encode` made from such claims with this secret and
/// the default header decodes to those claims. Left unsaid: the wording after the prefix.
#[verifier::external_body]
fn jwt_decode_hs256(token: &str, secret: &str) -> (r: Result<(String, String, usize, usize), String>)
    ensures
        (r matches Err(e) ==> e@.len() >= 15 && e@.take(15) == "invalid token: "@),
        forall|sub: Seq<char>, email: Seq<char>, exp: usize, iat: usize|
            token@ == #[trigger] jwt_hs256_token(sub, email, exp, iat, secret@) ==> (r is Ok && r.unwrap().0@ == sub
                && r.unwrap().1@ == email && r.unwrap().2 == exp && r.unwrap().3 == iat),
{
    let key = jsonwebtoken::DecodingKey::from_secret(secret.as_bytes());
    let mut validation = jsonwebtoken::Validation::default();
    validation.validate_exp = false;
    let data = jsonwebtoken::decode::<serde_json::Value>(token, &key, &validation)
        .map_err(|e| format!("invalid token: {e}"))?;
    let c = data.claims;
    let fields = serde_json::Value::Array(vec![c["sub"].clone(), c["email"].clone(), c["exp"].clone(), c["iat"].clone()]);
    serde_json::from_value::<(String, String, usize, usize)>(fields).map_err(|e| format!("invalid token: JSON error: {e}"))
}

/// Seconds after its `exp` during which a token is still accepted.
pub const TOKEN_LEEWAY_SECS: i64 = 60;

/// A token whose `exp` claim is `exp` has expired at `now`: more than the leeway has passed
/// since `exp`.
pub open spec fn token_expired(exp: usize, now: Timestamp) -> bool {
    exp + TOKEN_LEEWAY_SECS < now.secs
}

/// The error reported for an expired token.
pub open spec fn expired_token_error() -> Seq<char> {
    "invalid token: ExpiredSignature"@
}

/// The token issued at `now` to the account `id`, `email`: valid for a day.
pub open spec fn token_for(secret: Seq<char>, id: Seq<char>, email: Seq<char>, now: Timestamp) -> Seq<char> {
    jwt_hs256_token(id, email, (now.secs + TOKEN_LIFETIME_SECS) as usize, now.secs as usize, secret)
}

/// The stored hash of a password under a salt: the hex text of its Argon2id digest.
pub open spec fn password_hash_text(password: Seq<char>, salt: Seq<u8>) -> Seq<char> {
    hex_lower(argon2id_digest(encode_utf8(password), salt))
}

/// The account that registration stores.
pub open spec fn registered_account(
    email: Seq<char>,
    password: Seq<char>,
    display_name: Seq<char>,
    public_key: Seq<u8>,
    id: Seq<char>,
    salt: Seq<u8>,
    created_at: Timestamp,
) -> StoredUserView {
    StoredUserView {
        id,
        email,
        password_hash: password_hash_text(password, salt),
        password_salt: salt,
        public_key,
        display_name,
        created_at,
    }
}

/// `password` is the password of the account `u`: Argon2 accepts it with the account's
/// salt and the hex text of its digest is the stored hash.
pub open spec fn password_matches(u: StoredUserView, password: Seq<char>) -> bool {
    argon2_accepts(encode_utf8(password), u.password_salt) && password_hash_text(password, u.password_salt)
        == u.password_hash
}

/// The message returned for an unknown email or a wrong password.
pub open spec fn bad_credentials() -> Seq<char> {
    "invalid email or password"@
}

/// Registered accounts, keyed by email, and the secret that signs tokens.
pub struct AuthManager {
    jwt_secret: String,
    users: KeyedVec<StoredUser>,
}

impl AuthManager {
    /// The account table is well formed.
    pub closed spec fn wf(&self) -> bool {
        self.users.wf()
    }

    /// Accounts by email.
    pub closed spec fn accounts(&self) -> Map<Seq<char>, StoredUserView> {
        self.users.as_map()
    }

    /// The secret that signs tokens.
    pub closed spec fn secret(&self) -> Seq<char> {
        self.jwt_secret@
    }

    /// A manager with no accounts that signs with `jwt_secret`.
    pub fn new(jwt_secret: &str) -> (m: AuthManager)
        ensures
            m.wf(),
            m.accounts() == Map::<Seq<char>, StoredUserView>::empty(),
            m.secret() == jwt_secret@,
    {
        AuthManager { jwt_secret: jwt_secret.to_owned(), users: KeyedVec::new() }
    }

    /// The secret that signs tokens, which also checks them.
    pub fn jwt_secret(&self) -> (s: &str)
        ensures
            s@ == self.secret(),
    {
        self.jwt_secret.as_str()
    }

    /// The claims of a token issued to `user` at `now`.
    pub fn claims_for(user: &StoredUser, now: Timestamp) -> (c: Claims)
        requires
            now.valid(),
        ensures
            c.sub@ == user.id@,
            c.email@ == user.email@,
            c.iat == now.secs as usize,
            c.exp == (now.secs + TOKEN_LIFETIME_SECS) as usize,
    {
        let exp_secs: i64 = now.secs + TOKEN_LIFETIME_SECS;
        Claims {
            sub: user.id.clone(),
            email: user.email.clone(),
            exp: exp_secs as usize,
            iat: now.secs as usize,
        }
    }

    /// The token issued to `user` at `now`.
    fn generate_token(&self, user: &StoredUser, now: Timestamp) -> (r: Result<String, String>)
        requires
            now.valid(),
        ensures
            (r matches Ok(t) && t@ == token_for(self.secret(), user.id@, user.email@, now)),
    {
        let claims = Self::claims_for(user, now);
        match jwt_encode(claims.sub.as_str(), claims.email.as_str(), claims.exp, claims.iat, self.jwt_secret.as_str()) {
            Ok(t) => Ok(t),
            Err(e) => {
                let mut m = "token generation error: ".to_owned();
                m.append(e.as_str());
                Err(m)
            },
        }
    }

    /// Registers an account with the given id and salt, created at `created_at`, and issues
    /// its token at `now`.
    pub fn register_with(
        &mut self,
        email: &str,
        password: &str,
        display_name: &str,
        public_key: Vec<u8>,
        id: String,
        salt: Vec<u8>,
        created_at: Timestamp,
        now: Timestamp,
    ) -> (r: Result<String, String>)
        requires
            old(self).wf(),
            now.valid(),
        ensures
            final(self).wf(),
            final(self).secret() == old(self).secret(),
            old(self).accounts().contains_key(email@) ==> (r matches Err(e) && e@ == "email already registered"@),
            !old(self).accounts().contains_key(email@) && !argon2_accepts(encode_utf8(password@), salt@)
                ==> (r matches Err(e) && e@ == "hashing error: "@ + argon2_refusal(encode_utf8(password@), salt@)),
            r is Err ==> final(self).accounts() == old(self).accounts(),
            !old(self).accounts().contains_key(email@) && argon2_accepts(encode_utf8(password@), salt@) ==> {
                &&& (r matches Ok(t) && t@ == token_for(old(self).secret(), id@, email@, now))
                &&& final(self).accounts() == old(self).accounts().insert(
                    email@,
                    registered_account(email@, password@, display_name@, public_key@, id@, salt@, created_at),
                )
            },
    {
        if self.users.contains_key(email) {
            proof { reveal_strlit("email already registered"); }
            return Err("email already registered".to_owned());
        }
        let hash = match argon2_hash(password.as_bytes(), salt.as_slice()) {
            Ok(h) => h,
            Err(e) => {
                let mut m = "hashing error: ".to_owned();
                m.append(e.as_str());
                return Err(m);
            },
        };
        let user = StoredUser {
            id,
            email: email.to_owned(),
            password_hash: hex_encode(hash.as_slice()),
            password_salt: salt,
            public_key,
            display_name: display_name.to_owned(),
            created_at,
        };
        let token = match self.generate_token(&user, now) {
            Ok(t) => t,
            Err(e) => return Err(e),
        };
        self.users.insert(email, user);
        Ok(token)
    }

    /// Registers an account with a fresh random id and salt, created now; its token is
    /// issued at the same instant.
    pub fn register(&mut self, email: &str, password: &str, display_name: &str, public_key: Vec<u8>) -> (r: Result<String, String>)
        requires
            old(self).wf(),
        ensures
            final(self).wf(),
            final(self).secret() == old(self).secret(),
            old(self).accounts().contains_key(email@) ==> (r matches Err(e) && e@ == "email already registered"@),
            r is Err ==> final(self).accounts() == old(self).accounts(),
            r is Ok <==> !old(self).accounts().contains_key(email@) && encode_utf8(password@).len() <= ARGON2_MAX_PWD_LEN,
            r is Ok ==> {
                &&& final(self).accounts().dom() == old(self).accounts().dom().insert(email@)
                &&& forall|k: Seq<char>| k != email@ && #[trigger] old(self).accounts().contains_key(k) ==> final(self).accounts()[k] == old(self).accounts()[k]
                &&& final(self).accounts()[email@].email == email@
                &&& final(self).accounts()[email@].display_name == display_name@
                &&& final(self).accounts()[email@].public_key == public_key@
                &&& is_uuid_v4_text(final(self).accounts()[email@].id)
                &&& final(self).accounts()[email@].password_salt.len() == SALT_LEN
                &&& final(self).accounts()[email@].password_hash == password_hash_text(password@, final(self).accounts()[email@].password_salt)
                &&& final(self).accounts()[email@].created_at.valid()
                &&& final(self).accounts()[email@].created_at.secs >= 0
                &&& (r matches Ok(t) && t@ == token_for(old(self).secret(), final(self).accounts()[email@].id, email@, final(self).accounts()[email@].created_at))
            },
    {
        let id = new_uuid();
        let salt = random_salt();
        let created_at = now();
        let r = self.register_with(email, password, display_name, public_key, id, salt, created_at, created_at);
        proof {
            if r is Ok {
                assert(final(self).accounts().dom() =~= old(self).accounts().dom().insert(email@));
            }
        }
        r
    }

    /// Checks `password` against the account of `email` and, when it matches, issues a
    /// token at `now`.
    pub fn login_at(&self, email: &str, password: &str, now: Timestamp) -> (r: Result<(String, StoredUser), String>)
        requires
            self.wf(),
            now.valid(),
        ensures
            !self.accounts().contains_key(email@) ==> (r matches Err(e) && e@ == bad_credentials()),
            self.accounts().contains_key(email@) ==> {
                let u = self.accounts()[email@];
                let pw = encode_utf8(password@);
                &&& !argon2_accepts(pw, u.password_salt) ==> (r matches Err(e) && e@ == "hashing error: "@ + argon2_refusal(pw, u.password_salt))
                &&& argon2_accepts(pw, u.password_salt) && !password_matches(u, password@)
                    ==> (r matches Err(e) && e@ == bad_credentials())
                &&& password_matches(u, password@) ==> (r matches Ok((t, user)) && user@ == u && t@ == token_for(self.secret(), u.id, u.email, now))
            },
    {
        let user = match self.users.get(email) {
            Some(u) => u,
            None => {
                proof { reveal_strlit("invalid email or password"); }
                return Err("invalid email or password".to_owned());
            },
        };
        let hash = match argon2_hash(password.as_bytes(), user.password_salt.as_slice()) {
            Ok(h) => h,
            Err(e) => {
                let mut m = "hashing error: ".to_owned();
                m.append(e.as_str());
                return Err(m);
            },
        };
        let computed = hex_encode(hash.as_slice());
        if computed != user.password_hash {
            proof { reveal_strlit("invalid email or password"); }
            return Err("invalid email or password".to_owned());
        }
        let token = match self.generate_token(&user, now) {
            Ok(t) => t,
            Err(e) => return Err(e),
        };
        Ok((token, user))
    }

    /// Checks `password` against the account of `email`; on success the token is issued now.
    pub fn login(&self, email: &str, password: &str) -> (r: Result<(String, StoredUser), String>)
        requires
            self.wf(),
        ensures
            !self.accounts().contains_key(email@) ==> (r matches Err(e) && e@ == bad_credentials()),
            self.accounts().contains_key(email@) ==> {
                let u = self.accounts()[email@];
                let pw = encode_utf8(password@);
                &&& !argon2_accepts(pw, u.password_salt) ==> (r matches Err(e) && e@ == "hashing error: "@ + argon2_refusal(pw, u.password_salt))
                &&& argon2_accepts(pw, u.password_salt) && !password_matches(u, password@)
                    ==> (r matches Err(e) && e@ == bad_credentials())
                &&& password_matches(u, password@) ==> (r matches Ok((t, user)) && user@ == u && exists|now: Timestamp| now.valid() && t@ == token_for(self.secret(), u.id, u.email, now))
            },
    {
        self.login_at(email, password, now())
    }

    /// The claims built from the fields of a decoded token.
    pub fn claims_from_fields(sub: String, email: String, exp: usize, iat: usize) -> (c: Claims)
        ensures
            c.sub@ == sub@,
            c.email@ == email@,
            c.exp == exp,
            c.iat == iat,
    {
        Claims { sub, email, exp, iat }
    }

    /// The claims of a decoded token checked at `now`: a decoding error is passed on, an
    /// expired token is refused, and otherwise its claims are returned.
    pub fn accept_decoded(decoded: Result<(String, String, usize, usize), String>, now: Timestamp) -> (r: Result<Claims, String>)
        ensures
            match decoded {
                Err(e) => r matches Err(x) && x@ == e@,
                Ok(f) => if token_expired(f.2, now) {
                    r matches Err(x) && x@ == expired_token_error()
                } else {
                    r matches Ok(c) && c.sub@ == f.0@ && c.email@ == f.1@ && c.exp == f.2 && c.iat == f.3
                },
            },
    {
        match decoded {
            Err(e) => Err(e),
            Ok((sub, email, exp, iat)) => {
                let e: u64 = exp as u64;
                let expired = now.secs > 0 && (now.secs as u64) > e && (now.secs as u64) - e > 60;
                if expired {
                    proof { reveal_strlit("invalid token: ExpiredSignature"); }
                    Err("invalid token: ExpiredSignature".to_owned())
                } else {
                    Ok(Self::claims_from_fields(sub, email, exp, iat))
                }
            },
        }
    }

    /// Checks `token` at `now`: its signature under the secret, and that it has not expired;
    /// returns its claims. A token issued by this manager is accepted with the claims it was
    /// issued with until the leeway after its expiry has passed, and refused after.
    pub fn validate_token_at(&self, token: &str, now: Timestamp) -> (r: Result<Claims, String>)
        requires
            self.wf(),
        ensures
            (r matches Err(e) ==> e@.len() >= 15 && e@.take(15) == "invalid token: "@),
            (r matches Ok(c) ==> !token_expired(c.exp, now)),
            forall|sub: Seq<char>, email: Seq<char>, exp: usize, iat: usize|
                token@ == #[trigger] jwt_hs256_token(sub, email, exp, iat, self.secret()) ==> if token_expired(exp, now) {
                    r matches Err(e) && e@ == expired_token_error()
                } else {
                    r matches Ok(c) && c.sub@ == sub && c.email@ == email && c.exp == exp && c.iat == iat
                },
    {
        let r = Self::accept_decoded(jwt_decode_hs256(token, self.jwt_secret.as_str()), now);
        proof { reveal_strlit("invalid token: ExpiredSignature"); reveal_strlit("invalid token: "); }
        assert(r matches Err(e) ==> e@.len() >= 15 && e@.take(15) =~= "invalid token: "@);
        r
    }

    /// Checks `token` now (see `validate_token_at`): its signature under the secret, and that
    /// it has not expired; returns its claims.
    pub fn validate_token(&self, token: &str) -> (r: Result<Claims, String>)
        requires
            self.wf(),
        ensures
            (r matches Err(e) ==> e@.len() >= 15 && e@.take(15) == "invalid token: "@),
            forall|sub: Seq<char>, email: Seq<char>, exp: usize, iat: usize|
                token@ == #[trigger] jwt_hs256_token(sub, email, exp, iat, self.secret()) ==> (r matches Ok(c)
                    ==> c.sub@ == sub && c.email@ == email && c.exp == exp && c.iat == iat),
            forall|sub: Seq<char>, email: Seq<char>, exp: usize, iat: usize|
                token@ == #[trigger] jwt_hs256_token(sub, email, exp, iat, self.secret()) ==> (r matches Err(e)
                    ==> e@ == expired_token_error()),
            exists|t: Timestamp| t.valid() && t.secs >= 0 && (r matches Ok(c) ==> !token_expired(c.exp, t)) && (forall|
                sub: Seq<char>,
                email: Seq<char>,
                exp: usize,
                iat: usize,
            |
                token@ == #[trigger] jwt_hs256_token(sub, email, exp, iat, self.secret()) ==> (r is Ok <==> !token_expired(
                    exp,
                    t,
                ))),
    {
        let t = now();
        self.validate_token_at(token, t)
    }
}

/// Law: right after `email` registers with `password`, the account stored under `email`
/// is the new one and `password` matches it, so a login with the same email and password
/// succeeds and returns that account.
pub proof fn law_login_after_register(
    accounts: Map<Seq<char>, StoredUserView>,
    email: Seq<char>,
    password: Seq<char>,
    display_name: Seq<char>,
    public_key: Seq<u8>,
    id: Seq<char>,
    salt: Seq<u8>,
    created_at: Timestamp,
)
    requires
        argon2_accepts(encode_utf8(password), salt),
    ensures
        ({
            let after = accounts.insert(
                email,
                registered_account(email, password, display_name, public_key, id, salt, created_at),
            );
            &&& after.contains_key(email)
            &&& password_matches(after[email], password)
            &&& after[email].email == email
            &&& after[email].display_name == display_name
            &&& after[email].public_key == public_key
        }),
{
}

/// Law: a token issued at `issued` stays accepted until a day and the leeway after its
/// issue, and is refused from then on: at `at` it has expired exactly when more than
/// `TOKEN_LIFETIME_SECS + TOKEN_LEEWAY_SECS` seconds have passed since `issued`.
pub proof fn law_token_valid_for_a_day(issued: Timestamp, at: Timestamp)
    requires
        issued.valid(),
        issued.secs >= 0,
        issued.secs + TOKEN_LIFETIME_SECS <= usize::MAX,
    ensures
        token_expired((issued.secs + TOKEN_LIFETIME_SECS) as usize, at) <==> at.secs - issued.secs > 86_400 + 60,
{
}

/// Law: the token issued at `issued` to account `id`, `email` is the one whose claims are
/// `sub = id`, `email`, `exp` a day after `issued` and `iat = issued`, so validating it
/// gives back exactly those claims while it has not expired.
pub proof fn law_issued_token_claims(secret: Seq<char>, id: Seq<char>, email: Seq<char>, issued: Timestamp)
    requires
        issued.valid(),
        issued.secs >= 0,
        issued.secs + TOKEN_LIFETIME_SECS <= usize::MAX,
    ensures
        token_for(secret, id, email, issued) == jwt_hs256_token(
            id,
            email,
            (issued.secs + 86_400) as usize,
            issued.secs as usize,
            secret,
        ),
        ((issued.secs + 86_400) as usize) as int == issued.secs + 86_400,
        (issued.secs as usize) as int == issued.secs,
{
}

} // verus!
