//! The login cache: who is logged in, with which token, and where the cache
//! file lives.
use vstd::prelude::*;

use crate::models::user::UserInfo;
use crate::text::{all_ws, is_blank};

verus! {

/// The cached login.
#[derive(Debug)]
pub struct Cache {
    pub id: u64,
    pub blog_id: u64,
    pub blog_app: String,
    pub username: String,
    pub token: String,
}

impl Default for Cache {
    fn default() -> (r: Cache)
        ensures
            r.id == 0,
            r.blog_id == 0,
            r.blog_app@ == Seq::<char>::empty(),
            r.username@ == Seq::<char>::empty(),
            r.token@ == Seq::<char>::empty(),
    {
        Cache {
            id: 0,
            blog_id: 0,
            blog_app: String::new(),
            username: String::new(),
            token: String::new(),
        }
    }
}

impl Cache {
    /// Takes the user's fields; the token stays as it was.
    pub fn apply_user(&mut self, user: &UserInfo)
        ensures
            final(self).id == user.account_id,
            final(self).blog_id == user.blog_id,
            final(self).blog_app@ == user.blog_app@,
            final(self).username@ == user.display_name@,
            final(self).token == old(self).token,
    {
        self.id = user.account_id;
        self.blog_id = user.blog_id;
        self.blog_app = user.blog_app.clone();
        self.username = user.display_name.clone();
    }

    /// The token is empty or blank.
    pub fn is_token_empty(&self) -> (r: bool)
        ensures
            r == all_ws(self.token@),
    {
        is_blank(self.token.as_str())
    }

    /// A usable login: a token that is not blank, and an account id.
    pub fn is_valid(&self) -> (r: bool)
        ensures
            r == (!all_ws(self.token@) && self.id > 0),
    {
        !self.is_token_empty() && self.id > 0
    }
}

impl From<UserInfo> for Cache {
    /// A cache for the user, with no token.
    fn from(value: UserInfo) -> (r: Cache)
        ensures
            r.id == value.account_id,
            r.blog_id == value.blog_id,
            r.blog_app@ == value.blog_app@,
            r.username@ == value.display_name@,
            r.token@ == Seq::<char>::empty(),
    {
        let mut cache = Cache::default();
        cache.apply_user(&value);
        cache
    }
}

// The conversion is stated by `from`'s own `ensures`: its token is a fresh
// empty `String`, and no spec expression names a particular `String` value
// with an empty view, so `from_spec` cannot give the result exactly.
impl vstd::std_specs::convert::FromSpecImpl<UserInfo> for Cache {
    open spec fn obeys_from_spec() -> bool {
        false
    }

    open spec fn from_spec(v: UserInfo) -> Cache {
        vstd::pervasive::arbitrary()
    }
}

/// `p` appended to `base` as `Path::join` does on Unix: an absolute `p`
/// replaces `base`; otherwise a `/` goes between them unless `base` is
/// empty or already ends in `/`.
pub open spec fn joined(base: Seq<char>, p: Seq<char>) -> Seq<char> {
    if p.len() > 0 && p[0] == '/' {
        p
    } else if base.len() > 0 && base.last() != '/' {
        base + seq!['/'] + p
    } else {
        base + p
    }
}

/// `Path::join` on Unix.
pub fn join_path(base: &str, p: &str) -> (r: String)
    ensures
        r@ == joined(base@, p@),
{
    let pn = p.unicode_len();
    if pn > 0 && p.get_char(0) == '/' {
        return String::from_str(p);
    }
    let bn = base.unicode_len();
    let mut r = String::from_str(base);
    if bn > 0 && base.get_char(bn - 1) != '/' {
        crate::text::push_char(&mut r, '/');
    }
    r.append(p);
    r
}

/// Where the login cache lives: `<home>/.cnblogs/token`.
#[derive(Debug)]
pub struct CacheDir {
    pub cache_dir: String,
    pub cache_file: String,
    pub home_dir: String,
}

impl CacheDir {
    /// The cache location under the home directory `home_dir`.
    pub fn new(home_dir: String) -> (r: CacheDir)
        ensures
            r.home_dir == home_dir,
            r.cache_dir@ == ".cnblogs"@,
            r.cache_file@ == "token"@,
    {
        CacheDir {
            cache_dir: String::from_str(".cnblogs"),
            cache_file: String::from_str("token"),
            home_dir,
        }
    }

    /// The cache directory: the home directory joined with `cache_dir`.
    pub fn full_cache_dir(&self) -> (r: String)
        ensures
            r@ == joined(self.home_dir@, self.cache_dir@),
    {
        join_path(self.home_dir.as_str(), self.cache_dir.as_str())
    }

    /// The cache file: the cache directory joined with `cache_file`.
    pub fn full_cache_file(&self) -> (r: String)
        ensures
            r@ == joined(joined(self.home_dir@, self.cache_dir@), self.cache_file@),
    {
        let dir = self.full_cache_dir();
        join_path(dir.as_str(), self.cache_file.as_str())
    }
}

} // verus!
