use vstd::prelude::*;
use vstd::string::StrSliceExecFns;

use argon2::password_hash::rand_core::{OsRng, RngCore};
use argon2::password_hash::{PasswordHasher, PasswordVerifier, SaltString};

use crate::error::StoreError;
use crate::text::copy_opt;

verus! {

/// Seconds in an hour.
pub const HOUR: i64 = 3600;

/// The registered claims of an access token: the principal, when it expires
/// and when it was issued, both as seconds since the Unix epoch.
#[derive(Debug, Clone, Copy, PartialEq, Eq, Structural)]
pub struct Claims {
    pub sub: i64,
    pub exp: i64,
    pub iat: i64,
}

/// The principal that a request was authenticated as.
#[derive(Debug, Clone, Copy, PartialEq, Eq, Structural)]
pub struct AuthUser {
    pub user_id: i64,
}

pub struct LoginPayload {
    pub username: String,
    pub password: String,
}

pub struct AuthResponse {
    pub message: String,
    pub token: String,
}

/// A plain response message.
pub struct Message {
    pub message: String,
}

/// `x` held to the range of `i64`.
pub open spec fn clamp_i64(x: int) -> i64 {
    if x < i64::MIN {
        i64::MIN
    } else if x > i64::MAX {
        i64::MAX
    } else {
        x as i64
    }
}

/// The expiry of a token issued at `iat` for `hours` hours, held to the range
/// of `i64`.
pub open spec fn expiry(iat: i64, hours: i64) -> i64 {
    clamp_i64(iat + hours * HOUR)
}

impl Claims {
    /// Claims for `user_id`, issued at `now`, valid for `lifetime_hours`.
    pub fn issued_at(user_id: i64, lifetime_hours: i64, now: i64) -> (r: Claims)
        ensures
            r == (Claims { sub: user_id, iat: now, exp: expiry(now, lifetime_hours) }),
    {
        let wide: i128 = now as i128 + (lifetime_hours as i128) * (HOUR as i128);
        let exp: i64 = if wide < i64::MIN as i128 {
            i64::MIN
        } else if wide > i64::MAX as i128 {
            i64::MAX
        } else {
            wide as i64
        };
        Claims { sub: user_id, iat: now, exp }
    }

    /// Whether the token had expired at `now`.
    pub fn is_expired_at(&self, now: i64) -> (r: bool)
        ensures
            r == (self.exp < now),
    {
        self.exp < now
    }

    /// Whether the token was usable at `now`: issued no later, expiring later.
    pub fn is_valid_at(&self, now: i64) -> (r: bool)
        ensures
            r == (self.iat <= now && now < self.exp),
    {
        self.iat <= now && now < self.exp
    }
}

/// The token that an `Authorization` header value carries after `Bearer `.
pub open spec fn bearer_of(h: Seq<char>) -> Option<Seq<char>> {
    if h.len() >= 7 && h.subrange(0, 7) == "Bearer "@ {
        Some(h.subrange(7, h.len() as int))
    } else {
        None
    }
}

/// The token of a bearer `Authorization` header; `None` for any other form.
pub fn bearer_token(header: &str) -> (r: Option<String>)
    ensures
        r is Some <==> bearer_of(header@) is Some,
        r matches Some(t) ==> bearer_of(header@) == Some(t@),
{
    let prefix = "Bearer ";
    proof {
        reveal_strlit("Bearer ");
    }
    let n = header.unicode_len();
    if n < 7 {
        return None;
    }
    let mut i: usize = 0;
    while i < 7
        invariant
            i <= 7,
            n == header@.len(),
            n >= 7,
            prefix@ == "Bearer "@,
            prefix@.len() == 7,
            forall|k: int| 0 <= k < i ==> header@[k] == prefix@[k],
        decreases 7 - i,
    {
        if header.get_char(i) != prefix.get_char(i) {
            assert(header@.subrange(0, 7)[i as int] != "Bearer "@[i as int]);
            return None;
        }
        i = i + 1;
    }
    assert(header@.subrange(0, 7) =~= "Bearer "@);
    let rest = header.substring_char(7, n);
    Some(rest.to_owned())
}

/// Whether `password` matches the stored password hash `hash`; what argon2
/// decides for these two strings.
pub uninterp spec fn password_matches(hash: Seq<char>, password: Seq<char>) -> bool;

/// Relies on argon2's PasswordHash::new and Argon2::default().verify_password:
/// the hash string is parsed, and a hash that does not parse matches nothing.
/// The outcome depends on the two strings alone.
#[verifier::external_body]
fn verify_password(hash: &str, password: &str) -> (r: bool)
    ensures
        r == password_matches(hash@, password@),
{
    match argon2::password_hash::PasswordHash::new(hash) {
        Ok(parsed) => argon2::Argon2::default().verify_password(password.as_bytes(), &parsed).is_ok(),
        Err(_) => false,
    }
}

/// Relies on OsRng::try_fill_bytes for 16 random salt bytes, SaltString::encode_b64,
/// and Argon2::default().hash_password: the PHC string of the hash, `None`
/// where the random source or argon2 reports an error. The PHC string carries
/// algorithm, version, parameters and salt, so verifying the same password
/// against it succeeds; the salt is random, so nothing else is promised.
#[verifier::external_body]
fn hash_password(password: &str) -> (r: Option<String>)
    ensures
        r matches Some(h) ==> password_matches(h@, password@),
{
    let mut bytes = [0u8; 16];
    OsRng.try_fill_bytes(&mut bytes).ok()?;
    let salt = SaltString::encode_b64(&bytes).ok()?;
    argon2::Argon2::default().hash_password(password.as_bytes(), &salt).ok().map(|h| h.to_string())
}

/// A user account.
pub struct User {
    pub id: i64,
    pub username: String,
    pub password_hash: String,
    pub role: String,
    pub avatar_url: Option<String>,
    pub bio: Option<String>,
    pub full_name: Option<String>,
    pub created_at: i64,
    pub updated_at: i64,
}

/// What an account shows of itself: no password hash.
pub struct UserResponse {
    pub id: i64,
    pub username: String,
    pub role: String,
    pub avatar_url: Option<String>,
    pub bio: Option<String>,
    pub full_name: Option<String>,
}

impl UserResponse {
    pub open spec fn of(u: User) -> UserResponse {
        UserResponse {
            id: u.id,
            username: u.username,
            role: u.role,
            avatar_url: u.avatar_url,
            bio: u.bio,
            full_name: u.full_name,
        }
    }
}

/// The role every new account gets.
pub open spec fn default_role() -> Seq<char> {
    "user"@
}

/// The account with name `name` stands at some index.
pub open spec fn name_taken(users: Seq<User>, name: Seq<char>) -> bool {
    exists|i: int| 0 <= i < users.len() && (#[trigger] users[i]).username@ == name
}

/// User accounts: usernames unique, identifiers increasing.
pub struct Accounts {
    pub users: Vec<User>,
    pub next_id: i64,
}

impl Accounts {
    pub open spec fn wf(&self) -> bool {
        &&& 1 <= self.next_id
        &&& forall|i: int| 0 <= i < self.users@.len() ==> 1 <= #[trigger] self.users@[i].id < self.next_id
        &&& forall|i: int, j: int|
            0 <= i < j < self.users@.len() ==> #[trigger] self.users@[i].id < #[trigger] self.users@[j].id
        &&& forall|i: int, j: int|
            0 <= i < j < self.users@.len() ==> (#[trigger] self.users@[i]).username@
                != (#[trigger] self.users@[j]).username@
    }

    pub fn new() -> (r: Accounts)
        ensures
            r.wf(),
            r.users@.len() == 0,
            r.next_id == 1,
    {
        Accounts { users: Vec::new(), next_id: 1 }
    }

    fn copy_user(u: &User) -> (r: User)
        ensures
            r == *u,
    {
        User {
            id: u.id,
            username: u.username.clone(),
            password_hash: u.password_hash.clone(),
            role: u.role.clone(),
            avatar_url: copy_opt(&u.avatar_url),
            bio: copy_opt(&u.bio),
            full_name: copy_opt(&u.full_name),
            created_at: u.created_at,
            updated_at: u.updated_at,
        }
    }

    /// Where the account named `username` stands, if any.
    fn index_of_name(&self, username: &str) -> (r: Option<usize>)
        requires
            self.wf(),
        ensures
            r is None <==> !name_taken(self.users@, username@),
            r matches Some(i) ==> i < self.users@.len() && self.users@[i as int].username@ == username@,
    {
        let name = username.to_owned();
        let mut i: usize = 0;
        while i < self.users.len()
            invariant
                i <= self.users.len(),
                name@ == username@,
                forall|k: int| 0 <= k < i ==> (#[trigger] self.users@[k]).username@ != username@,
            decreases self.users.len() - i,
        {
            if self.users[i].username == name {
                return Some(i);
            }
            i = i + 1;
        }
        None
    }

    /// The account named `username`, if there is one.
    pub fn find_by_username(&self, username: &str) -> (r: Option<User>)
        requires
            self.wf(),
        ensures
            r is None <==> !name_taken(self.users@, username@),
            r matches Some(u) ==> exists|i: int| 0 <= i < self.users@.len() && self.users@[i] == u && u.username@ == username@,
    {
        match self.index_of_name(username) {
            Some(i) => Some(Accounts::copy_user(&self.users[i])),
            None => None,
        }
    }

    /// Stores a new account with an already hashed password; `Conflict` if the
    /// name is taken, `StorageFault` once identifiers are spent.
    pub fn create_user(&mut self, username: &str, password_hash: &str, now: i64) -> (r: Result<User, StoreError>)
        requires
            old(self).wf(),
        ensures
            final(self).wf(),
            r is Ok <==> !name_taken(old(self).users@, username@) && old(self).next_id < i64::MAX,
            r matches Err(e) ==> *final(self) == *old(self) && e == (if name_taken(old(self).users@, username@) {
                StoreError::Conflict
            } else {
                StoreError::StorageFault
            }),
            r matches Ok(u) ==> {
                &&& u.id == old(self).next_id
                &&& u.username@ == username@
                &&& u.password_hash@ == password_hash@
                &&& u.role@ == default_role()
                &&& u.avatar_url is None && u.bio is None && u.full_name is None
                &&& u.created_at == now && u.updated_at == now
                &&& final(self).users@ == old(self).users@.push(u)
                &&& final(self).next_id == old(self).next_id + 1
            },
    {
        if self.index_of_name(username).is_some() {
            return Err(StoreError::Conflict);
        }
        if self.next_id == i64::MAX {
            return Err(StoreError::StorageFault);
        }
        proof {
            reveal_strlit("user");
        }
        let u = User {
            id: self.next_id,
            username: username.to_owned(),
            password_hash: password_hash.to_owned(),
            role: "user".to_owned(),
            avatar_url: None,
            bio: None,
            full_name: None,
            created_at: now,
            updated_at: now,
        };
        let out = Accounts::copy_user(&u);
        self.users.push(u);
        self.next_id = self.next_id + 1;
        Ok(out)
    }

    /// What the account `id` shows of itself; `NotFound` if there is none.
    pub fn get_user_by_id(&self, id: i64) -> (r: Result<UserResponse, StoreError>)
        requires
            self.wf(),
        ensures
            r is Ok <==> exists|i: int| 0 <= i < self.users@.len() && (#[trigger] self.users@[i]).id == id,
            r matches Ok(v) ==> exists|i: int|
                0 <= i < self.users@.len() && self.users@[i].id == id && v == UserResponse::of(
                    #[trigger] self.users@[i],
                ),
            r matches Err(e) ==> e == StoreError::NotFound,
    {
        let mut i: usize = 0;
        while i < self.users.len()
            invariant
                i <= self.users.len(),
                forall|k: int| 0 <= k < i ==> (#[trigger] self.users@[k]).id != id,
            decreases self.users.len() - i,
        {
            if self.users[i].id == id {
                let u = &self.users[i];
                return Ok(
                    UserResponse {
                        id: u.id,
                        username: u.username.clone(),
                        role: u.role.clone(),
                        avatar_url: copy_opt(&u.avatar_url),
                        bio: copy_opt(&u.bio),
                        full_name: copy_opt(&u.full_name),
                    },
                );
            }
            i = i + 1;
        }
        Err(StoreError::NotFound)
    }

    /// The account that `username` and `password` log in to: `NotFound` for
    /// an unknown name, `ValidationFailure` for a wrong password.
    pub fn authenticate(&self, username: &str, password: &str) -> (r: Result<i64, StoreError>)
        requires
            self.wf(),
        ensures
            r is Ok <==> exists|i: int|
                0 <= i < self.users@.len() && (#[trigger] self.users@[i]).username@ == username@
                    && password_matches(self.users@[i].password_hash@, password@),
            r matches Ok(id) ==> exists|i: int|
                0 <= i < self.users@.len() && (#[trigger] self.users@[i]).username@ == username@
                    && self.users@[i].id == id,
            r matches Err(e) ==> e == (if name_taken(self.users@, username@) {
                StoreError::ValidationFailure
            } else {
                StoreError::NotFound
            }),
    {
        match self.index_of_name(username) {
            None => Err(StoreError::NotFound),
            Some(i) => {
                let u = &self.users[i];
                proof {
                    assert forall|j: int|
                        0 <= j < self.users@.len() && (#[trigger] self.users@[j]).username@ == username@
                        implies j == i by {
                        if j < i {
                            assert(self.users@[j].username@ != self.users@[i as int].username@);
                        } else if j > i {
                            assert(self.users@[i as int].username@ != self.users@[j].username@);
                        }
                    }
                }
                if verify_password(u.password_hash.as_str(), password) {
                    Ok(u.id)
                } else {
                    Err(StoreError::ValidationFailure)
                }
            },
        }
    }

    /// Registers `username` with `password`, hashed with a fresh random salt:
    /// `Conflict` if the name is taken. The hash itself is random, so beyond
    /// the name and role nothing is promised of the stored hash.
    pub fn register(&mut self, username: &str, password: &str, now: i64) -> (r: Result<User, StoreError>)
        requires
            old(self).wf(),
        ensures
            final(self).wf(),
            name_taken(old(self).users@, username@) ==> r == Err::<User, StoreError>(StoreError::Conflict),
            r matches Err(e) ==> *final(self) == *old(self) && e == (if name_taken(old(self).users@, username@) {
                StoreError::Conflict
            } else {
                StoreError::StorageFault
            }),
            r matches Ok(u) ==> {
                &&& u.id == old(self).next_id
                &&& u.username@ == username@
                &&& password_matches(u.password_hash@, password@)
                &&& u.role@ == default_role()
                &&& u.avatar_url is None && u.bio is None && u.full_name is None
                &&& u.created_at == now && u.updated_at == now
                &&& final(self).users@ == old(self).users@.push(u)
                &&& final(self).next_id == old(self).next_id + 1
            },
    {
        if self.index_of_name(username).is_some() {
            return Err(StoreError::Conflict);
        }
        match hash_password(password) {
            Some(hash) => self.create_user(username, hash.as_str(), now),
            None => Err(StoreError::StorageFault),
        }
    }
}

} // verus!
