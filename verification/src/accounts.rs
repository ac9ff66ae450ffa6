//! Local accounts and per-user favorites.
use vstd::prelude::*;
use vstd::string::*;
use crate::model::{FavoriteResource, ItemView, ResourceDetail, ResourceItem, UserRecord, UserSession};
use crate::text::{concat3, decimal, u128_to_string, hash_string, hash_text, is_blank, is_blank_str, owned, same_text, trim, trim_str};

verus! {

/// The user name of the account that a fresh installation gets.
pub const DEFAULT_USERNAME: &'static str = "admin";

/// The password of the account that a fresh installation gets.
pub const DEFAULT_PASSWORD: &'static str = "123456";

/// The abstract value of a favorite.
pub struct FavoriteView {
    pub id: Seq<char>,
    pub username: Seq<char>,
    pub title: Seq<char>,
    pub url: Seq<char>,
    pub source_name: Seq<char>,
    pub disk_type: Seq<char>,
    pub share_user: Seq<char>,
    pub info: Seq<char>,
    pub created_at: Seq<char>,
    pub resource_id: Seq<char>,
}

impl View for FavoriteResource {
    type V = FavoriteView;

    open spec fn view(&self) -> FavoriteView {
        FavoriteView {
            id: self.id@,
            username: self.username@,
            title: self.title@,
            url: self.url@,
            source_name: self.source_name@,
            disk_type: self.disk_type@,
            share_user: self.share_user@,
            info: self.info@,
            created_at: self.created_at@,
            resource_id: self.resource_id@,
        }
    }
}

/// The views of a list of favorites.
pub open spec fn favorite_views(v: Seq<FavoriteResource>) -> Seq<FavoriteView> {
    v.map_values(|f: FavoriteResource| f@)
}

/// The abstract value of a resource detail.
pub struct DetailView {
    pub title: Seq<char>,
    pub url: Seq<char>,
    pub source_name: Seq<char>,
    pub message: Seq<char>,
    pub validation_status: Seq<char>,
    pub can_open: bool,
    pub validation_message: Seq<char>,
}

impl View for ResourceDetail {
    type V = DetailView;

    open spec fn view(&self) -> DetailView {
        DetailView {
            title: self.title@,
            url: self.url@,
            source_name: self.source_name@,
            message: self.message@,
            validation_status: self.validation_status@,
            can_open: self.can_open,
            validation_message: self.validation_message@,
        }
    }
}

/// Whether some account has exactly this name and password.
pub open spec fn has_account(users: Seq<UserRecord>, name: Seq<char>, secret: Seq<char>) -> bool {
    exists|k: int| 0 <= k < users.len() && (#[trigger] users[k]).username@ == name && users[k].password@ == secret
}

/// What a sign-in answers: an error when the trimmed name or password is
/// empty, an error when no account has that trimmed name and password, and
/// otherwise a session for that account, holding no password.
pub open spec fn sign_in_ok(users: Seq<UserRecord>, username: Seq<char>, password: Seq<char>) -> bool {
    !is_blank(username) && !is_blank(password) && has_account(users, trim(username), trim(password))
}

/// `value` unless it is blank, else `fallback`.
pub open spec fn non_empty_or_spec(value: Seq<char>, fallback: Seq<char>) -> Seq<char> {
    if is_blank(value) { fallback } else { value }
}

/// `value` unless it is blank, else `fallback`.
pub fn non_empty_or(value: String, fallback: String) -> (r: String)
    ensures
        r@ == non_empty_or_spec(value@, fallback@),
{
    if is_blank_str(value.as_str()) { fallback } else { value }
}

/// Reads the clock: the milliseconds since the Unix epoch
/// (`SystemTime::now`, `duration_since(UNIX_EPOCH)`, `as_millis`); none when
/// the clock is before the epoch. Nothing is promised of the value.
#[verifier::external_body]
fn millis_since_epoch() -> (r: Option<u128>) {
    std::time::SystemTime::now().duration_since(std::time::UNIX_EPOCH).ok().map(|duration| duration.as_millis())
}

/// The current time in milliseconds since the Unix epoch, in decimal; `0`
/// when the clock is before the epoch.
pub fn current_timestamp_millis() -> (r: String)
    ensures
        exists|n: nat| r@ == decimal(n),
{
    match millis_since_epoch() {
        Some(ms) => u128_to_string(ms),
        None => {
            proof {
                reveal_strlit("0");
                assert("0"@ =~= decimal(0));
            }
            owned("0")
        },
    }
}

/// Signs in with the given name and password at the time `login_at`.
pub fn authenticate_user_at(users: &Vec<UserRecord>, username: &str, password: &str, login_at: String) -> (r:
    Result<UserSession, String>)
    ensures
        match r {
            Ok(session) => {
                &&& sign_in_ok(users@, username@, password@)
                &&& session.username@ == trim(username@)
                &&& session.display_name@ == trim(username@)
                &&& session.login_at@ == login_at@
            },
            Err(e) => {
                &&& !sign_in_ok(users@, username@, password@)
                &&& e@ == if is_blank(username@) || is_blank(password@) {
                    "用户名或密码不能为空"@
                } else {
                    "用户名或密码错误"@
                }
            },
        },
{
    let name = trim_str(username);
    let secret = trim_str(password);
    if is_blank_str(username) || is_blank_str(password) {
        return Err(owned("用户名或密码不能为空"));
    }
    let mut i: usize = 0;
    while i < users.len()
        invariant
            i <= users.len(),
            !is_blank(username@) && !is_blank(password@),
            name@ == trim(username@),
            secret@ == trim(password@),
            forall|k: int| 0 <= k < i ==> !((#[trigger] users@[k]).username@ == name@ && users@[k].password@ == secret@),
        decreases users.len() - i,
    {
        if same_text(users[i].username.as_str(), name.as_str()) && same_text(
            users[i].password.as_str(),
            secret.as_str(),
        ) {
            assert(users@[i as int].username@ == name@ && users@[i as int].password@ == secret@);
            return Ok(
                UserSession {
                    username: users[i].username.clone(),
                    display_name: users[i].username.clone(),
                    login_at,
                },
            );
        }
        i += 1;
    }
    Err(owned("用户名或密码错误"))
}

/// Signs in with the given name and password; the session records the
/// current time in milliseconds since the Unix epoch, in decimal.
pub fn authenticate_user(users: &Vec<UserRecord>, username: &str, password: &str) -> (r: Result<
    UserSession,
    String,
>)
    ensures
        match r {
            Ok(session) => {
                &&& sign_in_ok(users@, username@, password@)
                &&& session.username@ == trim(username@)
                &&& session.display_name@ == trim(username@)
                &&& exists|millis: nat| session.login_at@ == decimal(millis)
            },
            Err(e) => {
                &&& !sign_in_ok(users@, username@, password@)
                &&& e@ == if is_blank(username@) || is_blank(password@) {
                    "用户名或密码不能为空"@
                } else {
                    "用户名或密码错误"@
                }
            },
        },
{
    authenticate_user_at(users, username, password, current_timestamp_millis())
}

/// The accounts of a fresh installation: `admin` with password `123456`.
pub fn default_users() -> (r: Vec<UserRecord>)
    ensures
        r@.len() == 1,
        r@[0].username@ == DEFAULT_USERNAME@,
        r@[0].password@ == DEFAULT_PASSWORD@,
{
    vec![UserRecord { username: owned(DEFAULT_USERNAME), password: owned(DEFAULT_PASSWORD) }]
}

/// The accounts to use given those stored: the stored ones, or the default
/// account when none is stored; the flag tells whether the default was added
/// (and must be written back).
pub fn users_or_default(users: Vec<UserRecord>) -> (r: (Vec<UserRecord>, bool))
    ensures
        users@.len() > 0 ==> r.0@ == users@ && !r.1,
        users@.len() == 0 ==> r.1 && r.0@.len() == 1 && r.0@[0].username@ == DEFAULT_USERNAME@
            && r.0@[0].password@ == DEFAULT_PASSWORD@,
{
    if users.len() == 0 {
        (default_users(), true)
    } else {
        (users, false)
    }
}

/// The first favorite of `user` with the link `url`.
pub open spec fn find_favorite(fs: Seq<FavoriteView>, user: Seq<char>, url: Seq<char>) -> Option<FavoriteView>
    decreases fs.len(),
{
    if fs.len() == 0 {
        None
    } else if fs[0].username == user && fs[0].url == url {
        Some(fs[0])
    } else {
        find_favorite(fs.drop_first(), user, url)
    }
}

/// The favorite made for `user` from an item and its detail at `created_at`.
pub open spec fn new_favorite(user: Seq<char>, url: Seq<char>, i: ItemView, d: DetailView, created_at: Seq<char>) -> FavoriteView {
    FavoriteView {
        id: decimal(hash_text(user + i.id + url) as nat),
        username: user,
        title: non_empty_or_spec(trim(d.title), i.title),
        url: url,
        source_name: i.source_name,
        disk_type: i.disk_type,
        share_user: i.share_user,
        info: i.info,
        created_at: created_at,
        resource_id: i.id,
    }
}

/// What adding a favorite does: the favorites afterwards and the answer.
/// The user name and link are trimmed; a blank one, or a link validated as
/// invalid, is refused and nothing changes. A favorite of the same user with
/// the same link is answered as it is and nothing changes. Otherwise a new
/// favorite is appended and answered.
pub open spec fn add_favorite_spec(
    fs: Seq<FavoriteView>,
    username: Seq<char>,
    i: ItemView,
    d: DetailView,
    created_at: Seq<char>,
) -> (Seq<FavoriteView>, Result<FavoriteView, Seq<char>>) {
    let user = trim(username);
    let url = trim(d.url);
    if user.len() == 0 {
        (fs, Err("用户名不能为空"@))
    } else if url.len() == 0 {
        (fs, Err("收藏链接不能为空"@))
    } else if trim(d.validation_status) == "invalid"@ {
        (fs, Err(d.validation_message))
    } else {
        match find_favorite(fs, user, url) {
            Some(f) => (fs, Ok(f)),
            None => {
                let f = new_favorite(user, url, i, d, created_at);
                (fs.push(f), Ok(f))
            },
        }
    }
}

/// The view of an add answer.
pub open spec fn fav_result_view(r: Result<FavoriteResource, String>) -> Result<FavoriteView, Seq<char>> {
    match r {
        Ok(f) => Ok(f@),
        Err(e) => Err(e@),
    }
}

/// A copy of a favorite.
pub fn copy_favorite(f: &FavoriteResource) -> (r: FavoriteResource)
    ensures
        r@ == f@,
{
    FavoriteResource {
        id: f.id.clone(),
        username: f.username.clone(),
        title: f.title.clone(),
        url: f.url.clone(),
        source_name: f.source_name.clone(),
        disk_type: f.disk_type.clone(),
        share_user: f.share_user.clone(),
        info: f.info.clone(),
        created_at: f.created_at.clone(),
        resource_id: f.resource_id.clone(),
    }
}

/// Adds a favorite for `username` at the time `created_at`.
pub fn add_favorite_record_at(
    favorites: &mut Vec<FavoriteResource>,
    username: &str,
    item: &ResourceItem,
    detail: &ResourceDetail,
    created_at: String,
) -> (r: Result<FavoriteResource, String>)
    ensures
        (favorite_views(final(favorites)@), fav_result_view(r)) == add_favorite_spec(
            favorite_views(old(favorites)@),
            username@,
            item@,
            detail@,
            created_at@,
        ),
{
    let user = trim_str(username);
    if user.as_str().is_empty() {
        return Err(owned("用户名不能为空"));
    }
    let url = trim_str(detail.url.as_str());
    if url.as_str().is_empty() {
        return Err(owned("收藏链接不能为空"));
    }
    let status = trim_str(detail.validation_status.as_str());
    if same_text(status.as_str(), "invalid") {
        return Err(detail.validation_message.clone());
    }
    let ghost fs = favorite_views(favorites@);
    assert(fs.subrange(0, fs.len() as int) == fs);
    let mut i: usize = 0;
    while i < favorites.len()
        invariant
            i <= favorites.len(),
            fs == favorite_views(favorites@),
            user@ == trim(username@) && user@.len() > 0,
            url@ == trim(detail.url@) && url@.len() > 0,
            trim(detail.validation_status@) != "invalid"@,
            find_favorite(fs, user@, url@) == find_favorite(fs.subrange(i as int, fs.len() as int), user@, url@),
        decreases favorites.len() - i,
    {
        let ghost t = fs.subrange(i as int, fs.len() as int);
        assert(t[0] == favorites@[i as int]@);
        if same_text(favorites[i].username.as_str(), user.as_str()) && same_text(
            favorites[i].url.as_str(),
            url.as_str(),
        ) {
            assert(t.len() > 0 && t[0].username == user@ && t[0].url == url@);
            assert(find_favorite(t, user@, url@) == Some(t[0]));
            return Ok(copy_favorite(&favorites[i]));
        }
        assert(t.drop_first() == fs.subrange(i + 1, fs.len() as int));
        i += 1;
    }
    let key = concat3(user.as_str(), item.id.as_str(), url.as_str());
    let favorite = FavoriteResource {
        id: hash_string(key.as_str()),
        username: user,
        title: non_empty_or(trim_str(detail.title.as_str()), item.title.clone()),
        url,
        source_name: item.source_name.clone(),
        disk_type: item.disk_type.clone(),
        share_user: item.share_user.clone(),
        info: item.info.clone(),
        created_at,
        resource_id: item.id.clone(),
    };
    let answer = copy_favorite(&favorite);
    favorites.push(favorite);
    assert(favorite_views(favorites@) =~= fs.push(answer@));
    Ok(answer)
}

/// Adds a favorite for `username`, stamped with the current time: milliseconds
/// since the Unix epoch, in decimal.
pub fn add_favorite_record(
    favorites: &mut Vec<FavoriteResource>,
    username: &str,
    item: &ResourceItem,
    detail: &ResourceDetail,
) -> (r: Result<FavoriteResource, String>)
    ensures
        exists|millis: nat|
            (favorite_views(final(favorites)@), fav_result_view(r)) == add_favorite_spec(
                favorite_views(old(favorites)@),
                username@,
                item@,
                detail@,
                decimal(millis),
            ),
{
    let now = current_timestamp_millis();
    let ghost millis = choose|n: nat| now@ == decimal(n);
    let r = add_favorite_record_at(favorites, username, item, detail, now);
    assert(now@ == decimal(millis));
    assert((favorite_views(favorites@), fav_result_view(r)) == add_favorite_spec(
        favorite_views(old(favorites)@),
        username@,
        item@,
        detail@,
        now@,
    ));
    r
}

/// The favorites not matching `keep_out`, in order.
pub open spec fn without(fs: Seq<FavoriteView>, user: Seq<char>, id: Seq<char>) -> Seq<FavoriteView>
    decreases fs.len(),
{
    if fs.len() == 0 {
        seq![]
    } else if fs.last().username == user && fs.last().id == id {
        without(fs.drop_last(), user, id)
    } else {
        without(fs.drop_last(), user, id).push(fs.last())
    }
}

/// The favorites of `user`, in order.
pub open spec fn of_user(fs: Seq<FavoriteView>, user: Seq<char>) -> Seq<FavoriteView>
    decreases fs.len(),
{
    if fs.len() == 0 {
        seq![]
    } else if fs.last().username == user {
        of_user(fs.drop_last(), user).push(fs.last())
    } else {
        of_user(fs.drop_last(), user)
    }
}

/// Removes the favorite `favorite_id` of `username` and answers the user's
/// remaining favorites. Both are trimmed; when one is blank nothing changes
/// and an error is answered.
pub fn remove_favorite_record(
    favorites: &mut Vec<FavoriteResource>,
    username: &str,
    favorite_id: &str,
) -> (r: Result<Vec<FavoriteResource>, String>)
    ensures
        is_blank(username@) || is_blank(favorite_id@) ==> {
            &&& favorite_views(final(favorites)@) == favorite_views(old(favorites)@)
            &&& r matches Err(e) && e@ == "参数不能为空"@
        },
        !is_blank(username@) && !is_blank(favorite_id@) ==> {
            &&& favorite_views(final(favorites)@) == without(
                favorite_views(old(favorites)@),
                trim(username@),
                trim(favorite_id@),
            )
            &&& r matches Ok(list) && favorite_views(list@) == of_user(
                favorite_views(final(favorites)@),
                trim(username@),
            )
        },
{
    let user = trim_str(username);
    let id = trim_str(favorite_id);
    if is_blank_str(username) || is_blank_str(favorite_id) {
        return Err(owned("参数不能为空"));
    }
    let ghost fs = favorite_views(favorites@);
    let mut kept: Vec<FavoriteResource> = Vec::new();
    let mut i: usize = 0;
    while i < favorites.len()
        invariant
            i <= favorites.len(),
            fs == favorite_views(favorites@),
            favorite_views(kept@) == without(fs.subrange(0, i as int), user@, id@),
        decreases favorites.len() - i,
    {
        assert(fs.subrange(0, i + 1).drop_last() == fs.subrange(0, i as int));
        if !(same_text(favorites[i].username.as_str(), user.as_str()) && same_text(
            favorites[i].id.as_str(),
            id.as_str(),
        )) {
            let ghost before = kept@;
            kept.push(copy_favorite(&favorites[i]));
            assert(favorite_views(kept@) =~= favorite_views(before).push(fs[i as int]));
        }
        i += 1;
    }
    assert(fs.subrange(0, fs.len() as int) == fs);
    *favorites = kept;
    let ghost ks = favorite_views(favorites@);
    let mut mine: Vec<FavoriteResource> = Vec::new();
    let mut j: usize = 0;
    while j < favorites.len()
        invariant
            j <= favorites.len(),
            ks == favorite_views(favorites@),
            favorite_views(mine@) == of_user(ks.subrange(0, j as int), user@),
        decreases favorites.len() - j,
    {
        assert(ks.subrange(0, j + 1).drop_last() == ks.subrange(0, j as int));
        if same_text(favorites[j].username.as_str(), user.as_str()) {
            let ghost before = mine@;
            mine.push(copy_favorite(&favorites[j]));
            assert(favorite_views(mine@) =~= favorite_views(before).push(ks[j as int]));
        }
        j += 1;
    }
    assert(ks.subrange(0, ks.len() as int) == ks);
    Ok(mine)
}

/// The favorites of `username` (trimmed), in order; an error when the name is blank.
pub fn list_user_favorites(favorites: &Vec<FavoriteResource>, username: &str) -> (r: Result<Vec<FavoriteResource>, String>)
    ensures
        is_blank(username@) ==> (r matches Err(e) && e@ == "用户名不能为空"@),
        !is_blank(username@) ==> (r matches Ok(list) && favorite_views(list@) == of_user(
            favorite_views(favorites@),
            trim(username@),
        )),
{
    let user = trim_str(username);
    if user.as_str().is_empty() {
        return Err(owned("用户名不能为空"));
    }
    let ghost fs = favorite_views(favorites@);
    let mut mine: Vec<FavoriteResource> = Vec::new();
    let mut j: usize = 0;
    while j < favorites.len()
        invariant
            j <= favorites.len(),
            fs == favorite_views(favorites@),
            favorite_views(mine@) == of_user(fs.subrange(0, j as int), user@),
        decreases favorites.len() - j,
    {
        assert(fs.subrange(0, j + 1).drop_last() == fs.subrange(0, j as int));
        if same_text(favorites[j].username.as_str(), user.as_str()) {
            let ghost before = mine@;
            mine.push(copy_favorite(&favorites[j]));
            assert(favorite_views(mine@) =~= favorite_views(before).push(fs[j as int]));
        }
        j += 1;
    }
    assert(fs.subrange(0, fs.len() as int) == fs);
    Ok(mine)
}

} // verus!
