use vstd::prelude::*;
use vstd::string::{StrSliceExecFns, StringExecFns, StringSliceAdditionalSpecFns};
use crate::sanitize::trim_spec;
use crate::sanitize::trim_text;
use crate::text::{first_char_from, lemma_first_char_at, str_eq};

verus! {

/// One account of the registry's credentials file.
#[derive(Debug)]
pub struct UserInfo {
    pub username: String,
    pub created: Option<String>,
}

/// Why a credentials operation was rejected.
#[derive(Debug)]
pub enum UsersError {
    /// The user name is empty.
    EmptyUsername,
    /// The user name holds a colon or a line break.
    InvalidUsername,
    /// The password is empty.
    EmptyPassword,
    /// The password is shorter than four bytes.
    PasswordTooShort,
    /// The named user already exists.
    UserExists(String),
    /// The named user does not exist.
    UserNotFound(String),
    /// The password hasher refused the password.
    HashFailed(String),
}

impl UsersError {
    /// The human-readable message shown at the boundary.
    pub fn message(&self) -> (r: String)
        ensures
            r@ == spec_users_error_message(*self),
    {
        match self {
            UsersError::EmptyUsername => "The user name must not be empty".to_owned(),
            UsersError::InvalidUsername => "The user name holds an invalid character".to_owned(),
            UsersError::EmptyPassword => "The password must not be empty".to_owned(),
            UsersError::PasswordTooShort => "The password needs at least 4 characters".to_owned(),
            UsersError::UserExists(u) => "User already exists: ".to_owned().concat(u.as_str()),
            UsersError::UserNotFound(u) => "User does not exist: ".to_owned().concat(u.as_str()),
            UsersError::HashFailed(d) => "Password hashing failed: ".to_owned().concat(d.as_str()),
        }
    }
}

/// The human-readable rendering of each rejection.
pub open spec fn spec_users_error_message(e: UsersError) -> Seq<char> {
    match e {
        UsersError::EmptyUsername => "The user name must not be empty"@,
        UsersError::InvalidUsername => "The user name holds an invalid character"@,
        UsersError::EmptyPassword => "The password must not be empty"@,
        UsersError::PasswordTooShort => "The password needs at least 4 characters"@,
        UsersError::UserExists(u) => "User already exists: "@ + u@,
        UsersError::UserNotFound(u) => "User does not exist: "@ + u@,
        UsersError::HashFailed(d) => "Password hashing failed: "@ + d@,
    }
}

/// The text split at every line break; a trailing break yields a final
/// empty piece, which the parser skips anyway.
pub open spec fn spec_split_lines(s: Seq<char>) -> Seq<Seq<char>>
    decreases s.len(),
{
    let i = first_char_from(s, '\n', 0);
    if 0 <= i < s.len() {
        seq![s.subrange(0, i)] + spec_split_lines(s.subrange(i + 1, s.len() as int))
    } else {
        seq![s]
    }
}

/// What one line of the credentials file contributes: nothing for blank
/// lines and comments, else the user name and password hash split at the
/// first colon; a line without a colon is skipped.
pub open spec fn spec_parse_entry(line: Seq<char>) -> Option<(Seq<char>, Seq<char>)> {
    let t = trim_spec(line);
    if t.len() == 0 || t[0] == '#' {
        None
    } else {
        let j = first_char_from(t, ':', 0);
        if 0 <= j < t.len() {
            Some((t.subrange(0, j), t.subrange(j + 1, t.len() as int)))
        } else {
            None
        }
    }
}

/// The position of the entry carrying the given user name, starting at `i`.
pub open spec fn find_key_from(
    users: Seq<(Seq<char>, Seq<char>)>,
    name: Seq<char>,
    i: int,
) -> Option<int>
    decreases users.len() - i,
{
    if i < 0 || i >= users.len() {
        None
    } else if users[i].0 == name {
        Some(i)
    } else {
        find_key_from(users, name, i + 1)
    }
}

/// The position of the entry carrying the given user name.
pub open spec fn find_key(users: Seq<(Seq<char>, Seq<char>)>, name: Seq<char>) -> Option<int> {
    find_key_from(users, name, 0)
}

/// The list with the given account stored: the hash replaced in place when
/// the name is present, the pair appended otherwise.
pub open spec fn spec_upsert(
    users: Seq<(Seq<char>, Seq<char>)>,
    name: Seq<char>,
    hash: Seq<char>,
) -> Seq<(Seq<char>, Seq<char>)> {
    match find_key(users, name) {
        Some(j) => users.update(j, (name, hash)),
        None => users.push((name, hash)),
    }
}

/// The list with the given account removed, when it is present.
pub open spec fn spec_remove_key(
    users: Seq<(Seq<char>, Seq<char>)>,
    name: Seq<char>,
) -> Seq<(Seq<char>, Seq<char>)> {
    match find_key(users, name) {
        Some(j) => users.remove(j),
        None => users,
    }
}

/// The accounts named by the given lines, in order of first appearance; a
/// repeated user name keeps its place and takes the later hash.
pub open spec fn spec_parse_lines(ls: Seq<Seq<char>>) -> Seq<(Seq<char>, Seq<char>)>
    decreases ls.len(),
{
    if ls.len() == 0 {
        Seq::empty()
    } else {
        let prev = spec_parse_lines(ls.drop_last());
        match spec_parse_entry(ls.last()) {
            Some(e) => spec_upsert(prev, e.0, e.1),
            None => prev,
        }
    }
}

/// The accounts held by a credentials file.
pub open spec fn spec_parse_htpasswd(s: Seq<char>) -> Seq<(Seq<char>, Seq<char>)> {
    spec_parse_lines(spec_split_lines(s))
}

/// No two entries carry the same user name.
pub open spec fn unique_keys(users: Seq<(Seq<char>, Seq<char>)>) -> bool {
    forall|i: int, j: int| 0 <= i < j < users.len() ==> users[i].0 != users[j].0
}

/// The credentials file naming the given accounts, one colon-joined line
/// each.
pub open spec fn spec_generate(users: Seq<(Seq<char>, Seq<char>)>) -> Seq<char>
    decreases users.len(),
{
    if users.len() == 0 {
        Seq::empty()
    } else if users.len() == 1 {
        users[0].0 + ":"@ + users[0].1
    } else {
        spec_generate(users.drop_last()) + "\n"@ + users.last().0 + ":"@ + users.last().1
    }
}

proof fn lemma_find_key_none_forall(users: Seq<(Seq<char>, Seq<char>)>, name: Seq<char>, a: int)
    requires
        a >= 0,
        find_key_from(users, name, a) is None,
    ensures
        forall|k: int| a <= k < users.len() ==> users[k].0 != name,
    decreases users.len() - a,
{
    if a < users.len() {
        lemma_find_key_none_forall(users, name, a + 1);
    }
}

proof fn lemma_find_key_none(users: Seq<(Seq<char>, Seq<char>)>, name: Seq<char>, a: int)
    requires
        0 <= a <= users.len(),
        forall|k: int| a <= k < users.len() ==> users[k].0 != name,
    ensures
        find_key_from(users, name, a) is None,
    decreases users.len() - a,
{
    if a < users.len() {
        lemma_find_key_none(users, name, a + 1);
    }
}

proof fn lemma_find_key_some(users: Seq<(Seq<char>, Seq<char>)>, name: Seq<char>, a: int, j: int)
    requires
        0 <= a <= j < users.len(),
        forall|k: int| a <= k < j ==> users[k].0 != name,
        users[j].0 == name,
    ensures
        find_key_from(users, name, a) == Some(j),
    decreases j - a,
{
    if a < j {
        lemma_find_key_some(users, name, a + 1, j);
    }
}

/// Storing an account never introduces a duplicate user name.
pub proof fn lemma_upsert_unique(
    users: Seq<(Seq<char>, Seq<char>)>,
    name: Seq<char>,
    hash: Seq<char>,
)
    requires
        unique_keys(users),
    ensures
        unique_keys(spec_upsert(users, name, hash)),
{
    match find_key(users, name) {
        Some(j) => {
            lemma_find_key_some_name(users, name, 0, j);
            let r = users.update(j, (name, hash));
            assert forall|x: int, y: int| 0 <= x < y < r.len() implies r[x].0 != r[y].0 by {
                assert(r[x].0 == users[x].0);
                assert(r[y].0 == users[y].0);
            }
        },
        None => {
            lemma_find_key_none_forall(users, name, 0);
        },
    }
}

proof fn lemma_find_key_some_name(
    users: Seq<(Seq<char>, Seq<char>)>,
    name: Seq<char>,
    a: int,
    j: int,
)
    requires
        0 <= a,
        find_key_from(users, name, a) == Some(j),
    ensures
        a <= j < users.len(),
        users[j].0 == name,
    decreases users.len() - a,
{
    if a < users.len() && users[a].0 != name {
        lemma_find_key_some_name(users, name, a + 1, j);
    }
}

/// The parsed account list never repeats a user name.
pub proof fn lemma_parse_lines_unique(ls: Seq<Seq<char>>)
    ensures
        unique_keys(spec_parse_lines(ls)),
    decreases ls.len(),
{
    if ls.len() > 0 {
        lemma_parse_lines_unique(ls.drop_last());
        match spec_parse_entry(ls.last()) {
            Some(e) => {
                lemma_upsert_unique(spec_parse_lines(ls.drop_last()), e.0, e.1);
            },
            None => {},
        }
    }
}

/// Copies one slice of the text.
fn substring_owned(s: &str, a: usize, b: usize) -> (r: String)
    requires
        a <= b <= s@.len(),
    ensures
        r@ == s@.subrange(a as int, b as int),
{
    s.substring_char(a, b).to_owned()
}

/// Splits the text at every line break.
#[verifier::loop_isolation(false)]
pub fn split_lines(content: &str) -> (r: Vec<String>)
    ensures
        r.deep_view() == spec_split_lines(content@),
{
    let cs = crate::text::str_to_chars(content);
    let n = cs.len();
    let mut r: Vec<String> = Vec::new();
    let mut start: usize = 0;
    let mut i: usize = 0;
    proof {
        assert(content@.skip(0) =~= content@);
        assert(r.deep_view() + spec_split_lines(content@) =~= spec_split_lines(content@));
    }
    while i < n
        invariant
            n == cs@.len(),
            cs@ == content@,
            start <= i <= n,
            forall|k: int| start <= k < i ==> cs@[k] != '\n',
            spec_split_lines(content@) == r.deep_view() + spec_split_lines(
                content@.skip(start as int),
            ),
        decreases n - i,
    {
        if cs[i] == '\n' {
            let ghost rest = content@.skip(start as int);
            proof {
                lemma_first_char_at(rest, '\n', 0, i - start);
                assert(rest.subrange(0, i - start) =~= content@.subrange(start as int, i as int));
                assert(rest.subrange(i - start + 1, rest.len() as int) =~= content@.skip(
                    i + 1 as int,
                ));
            }
            let line = substring_owned(content, start, i);
            let ghost dv0 = r.deep_view();
            r.push(line);
            proof {
                assert(r.deep_view() =~= dv0.push(line@));
                assert(r.deep_view() + spec_split_lines(content@.skip(i + 1 as int))
                    =~= spec_split_lines(content@));
            }
            start = i + 1;
        }
        i += 1;
    }
    let ghost rest = content@.skip(start as int);
    proof {
        lemma_first_char_at(rest, '\n', 0, rest.len() as int);
        assert(rest =~= content@.subrange(start as int, n as int));
    }
    let line = substring_owned(content, start, n);
    let ghost dv0 = r.deep_view();
    r.push(line);
    proof {
        assert(r.deep_view() =~= dv0.push(line@));
        assert(r.deep_view() =~= spec_split_lines(content@));
    }
    r
}

/// Parses one line of the credentials file.
fn parse_entry(line: &str) -> (r: Option<(String, String)>)
    ensures
        r.deep_view() == spec_parse_entry(line@),
{
    let t = trim_text(line);
    let ts = t.as_str();
    if ts.is_empty() {
        return None;
    }
    if ts.get_char(0) == '#' {
        return None;
    }
    let n = ts.unicode_len();
    let mut j: usize = 0;
    while j < n && ts.get_char(j) != ':'
        invariant
            n == ts@.len(),
            j <= n,
            forall|k: int| 0 <= k < j ==> ts@[k] != ':',
        decreases n - j,
    {
        j += 1;
    }
    proof {
        lemma_first_char_at(ts@, ':', 0, j as int);
    }
    if j == n {
        return None;
    }
    let user = substring_owned(ts, 0, j);
    let hash = substring_owned(ts, j + 1, n);
    Some((user, hash))
}

/// Replaces the hash of the named account or appends the pair.
fn upsert(users: &mut Vec<(String, String)>, name: String, hash: String)
    ensures
        final(users).deep_view() == spec_upsert(old(users).deep_view(), name@, hash@),
{
    let n = users.len();
    let ghost dv = users.deep_view();
    let mut i: usize = 0;
    while i < n
        invariant
            n == users@.len(),
            i <= n,
            *users == *old(users),
            dv == users.deep_view(),
            forall|k: int| 0 <= k < i ==> users.deep_view()[k].0 != name@,
        decreases n - i,
    {
        if str_eq(users[i].0.as_str(), name.as_str()) {
            proof {
                lemma_find_key_some(dv, name@, 0, i as int);
            }
            users.set(i, (name, hash));
            proof {
                assert(users.deep_view() =~= spec_upsert(dv, name@, hash@));
            }
            return ;
        }
        i += 1;
    }
    proof {
        lemma_find_key_none(dv, name@, 0);
    }
    users.push((name, hash));
    proof {
        assert(users.deep_view() =~= spec_upsert(dv, name@, hash@));
    }
}

/// Parses the credentials file: one account per colon-joined line, blank
/// lines and `#` comments skipped, a repeated user name keeping its first
/// place with the last hash.
#[verifier::loop_isolation(false)]
pub fn parse_htpasswd(content: &str) -> (r: Vec<(String, String)>)
    ensures
        r.deep_view() == spec_parse_htpasswd(content@),
        unique_keys(r.deep_view()),
{
    let lines = split_lines(content);
    let ghost lv = lines.deep_view();
    let mut users: Vec<(String, String)> = Vec::new();
    let mut i: usize = 0;
    while i < lines.len()
        invariant
            lv == lines.deep_view(),
            lv.len() == lines@.len(),
            i <= lines@.len(),
            users.deep_view() == spec_parse_lines(lv.subrange(0, i as int)),
        decreases lines@.len() - i,
    {
        proof {
            assert(lv.subrange(0, i + 1 as int).drop_last() =~= lv.subrange(0, i as int));
            assert(lines.deep_view()[i as int] == lines@[i as int]@);
        }
        match parse_entry(lines[i].as_str()) {
            Some(pair) => {
                upsert(&mut users, pair.0, pair.1);
            },
            None => {},
        }
        assert(users.deep_view() == spec_parse_lines(lv.subrange(0, i + 1 as int)));
        i += 1;
    }
    proof {
        assert(lv.subrange(0, lv.len() as int) =~= lv);
        lemma_parse_lines_unique(lv);
    }
    users
}

/// Writes the credentials file naming the given accounts.
pub fn generate_htpasswd(users: &Vec<(String, String)>) -> (r: String)
    ensures
        r@ == spec_generate(users.deep_view()),
{
    let ghost dv = users.deep_view();
    let mut out = String::new();
    let mut i: usize = 0;
    while i < users.len()
        invariant
            dv == users.deep_view(),
            dv.len() == users@.len(),
            i <= users@.len(),
            out@ == spec_generate(dv.subrange(0, i as int)),
        decreases users@.len() - i,
    {
        if i > 0 {
            out.append("\n");
        }
        out.append(users[i].0.as_str());
        out.append(":");
        out.append(users[i].1.as_str());
        proof {
            assert(dv.subrange(0, i + 1 as int).drop_last() =~= dv.subrange(0, i as int));
            assert(dv[i as int].0 == users@[i as int].0@);
            assert(dv[i as int].1 == users@[i as int].1@);
            assert(out@ =~= spec_generate(dv.subrange(0, i + 1 as int)));
        }
        i += 1;
    }
    proof {
        assert(dv.subrange(0, dv.len() as int) =~= dv);
    }
    out
}

/// The accounts of the credentials file, as the boundary lists them; the
/// file does not record creation times.
pub fn users_from_htpasswd(content: &str) -> (r: Vec<UserInfo>)
    ensures
        r@.len() == spec_parse_htpasswd(content@).len(),
        forall|i: int|
            0 <= i < r@.len() ==> r@[i].username@ == spec_parse_htpasswd(content@)[i].0
                && r@[i].created is None,
{
    let users = parse_htpasswd(content);
    let ghost dv = users.deep_view();
    let mut r: Vec<UserInfo> = Vec::new();
    let mut i: usize = 0;
    while i < users.len()
        invariant
            dv == users.deep_view(),
            dv.len() == users@.len(),
            i <= users@.len(),
            r@.len() == i,
            forall|k: int| 0 <= k < i ==> r@[k].username@ == dv[k].0 && r@[k].created is None,
        decreases users@.len() - i,
    {
        let name = users[i].0.clone();
        assert(name@ == dv[i as int].0);
        r.push(UserInfo { username: name, created: None });
        i += 1;
    }
    r
}

/// Relies on bcrypt::hash with the crate's default cost: a salted hash of
/// the password; the salt is drawn from the operating system, so nothing
/// further is known of the result.
#[verifier::external_body]
fn hash_password(password: &str) -> Result<String, String> {
    bcrypt::hash(password, bcrypt::DEFAULT_COST).map_err(|e| e.to_string())
}

/// Adds the account with an already-computed hash: rejected when the user
/// name is empty or malformed or already present, else the rewritten file.
#[verifier::loop_isolation(false)]
pub fn add_user_with_hash(content: &str, username: &str, hash: &str) -> (r: Result<
    String,
    UsersError,
>)
    ensures
        ({
            let users = spec_parse_htpasswd(content@);
            if username@.len() == 0 {
                r == Err::<String, UsersError>(UsersError::EmptyUsername)
            } else if username@.contains(':') || username@.contains('\n') {
                r == Err::<String, UsersError>(UsersError::InvalidUsername)
            } else if find_key(users, username@) is Some {
                r matches Err(UsersError::UserExists(u)) && u@ == username@
            } else {
                r matches Ok(s) && s@ == spec_generate(users.push((username@, hash@)))
            }
        }),
{
    if username.is_empty() {
        return Err(UsersError::EmptyUsername);
    }
    if crate::text::str_contains_char(username, ':') || crate::text::str_contains_char(
        username,
        '\n',
    ) {
        return Err(UsersError::InvalidUsername);
    }
    let mut users = parse_htpasswd(content);
    let ghost dv = users.deep_view();
    if find_user_index(&users, username).is_some() {
        return Err(UsersError::UserExists(username.to_owned()));
    }
    users.push((username.to_owned(), hash.to_owned()));
    proof {
        assert(users.deep_view() =~= dv.push((username@, hash@)));
    }
    Ok(generate_htpasswd(&users))
}

/// The position of the named account in the parsed list.
#[verifier::loop_isolation(false)]
fn find_user_index(users: &Vec<(String, String)>, name: &str) -> (r: Option<usize>)
    ensures
        match r {
            Some(i) => i < users@.len() && find_key(users.deep_view(), name@) == Some(i as int),
            None => find_key(users.deep_view(), name@) is None,
        },
{
    let ghost dv = users.deep_view();
    let n = users.len();
    let mut i: usize = 0;
    while i < n
        invariant
            i <= n,
            forall|k: int| 0 <= k < i ==> users.deep_view()[k].0 != name@,
        decreases n - i,
    {
        if str_eq(users[i].0.as_str(), name) {
            proof {
                lemma_find_key_some(dv, name@, 0, i as int);
            }
            return Some(i);
        }
        i += 1;
    }
    proof {
        lemma_find_key_none(dv, name@, 0);
    }
    None
}

/// A password the registry accepts: at least four bytes.
pub open spec fn spec_password_len(p: &str) -> int {
    p.spec_bytes().len() as int
}

/// Adds an account: validates the user name and the password, refuses a
/// duplicate, hashes the password, and returns the rewritten file.  The
/// hash is salted by the hasher, so the new line's content is pinned only
/// up to the hash it returned.
#[verifier::loop_isolation(false)]
pub fn add_user_content(content: &str, username: &str, password: &str) -> (r: Result<
    String,
    UsersError,
>)
    ensures
        ({
            let users = spec_parse_htpasswd(content@);
            if username@.len() == 0 {
                r == Err::<String, UsersError>(UsersError::EmptyUsername)
            } else if username@.contains(':') || username@.contains('\n') {
                r == Err::<String, UsersError>(UsersError::InvalidUsername)
            } else if spec_password_len(password) == 0 {
                r == Err::<String, UsersError>(UsersError::EmptyPassword)
            } else if spec_password_len(password) < 4 {
                r == Err::<String, UsersError>(UsersError::PasswordTooShort)
            } else if find_key(users, username@) is Some {
                r matches Err(UsersError::UserExists(u)) && u@ == username@
            } else {
                (r matches Ok(s) && exists|h: Seq<char>|
                    s@ == spec_generate(users.push((username@, h)))) || r matches Err(
                    UsersError::HashFailed(_),
                )
            }
        }),
{
    if username.is_empty() {
        return Err(UsersError::EmptyUsername);
    }
    if crate::text::str_contains_char(username, ':') || crate::text::str_contains_char(
        username,
        '\n',
    ) {
        return Err(UsersError::InvalidUsername);
    }
    if password.as_bytes().len() == 0 {
        return Err(UsersError::EmptyPassword);
    }
    if password.as_bytes().len() < 4 {
        return Err(UsersError::PasswordTooShort);
    }
    let users = parse_htpasswd(content);
    let ghost dv = users.deep_view();
    if find_user_index(&users, username).is_some() {
        return Err(UsersError::UserExists(username.to_owned()));
    }
    let hash = match hash_password(password) {
        Ok(h) => h,
        Err(e) => {
            return Err(UsersError::HashFailed(e));
        },
    };
    let r = add_user_with_hash(content, username, hash.as_str());
    proof {
        if r is Ok {
            let s = r->Ok_0;
            assert(s@ == spec_generate(dv.push((username@, hash@))));
        }
    }
    r
}

/// Removes the named account, when it exists, and returns the rewritten
/// file.
#[verifier::loop_isolation(false)]
pub fn delete_user_content(content: &str, username: &str) -> (r: Result<String, UsersError>)
    ensures
        ({
            let users = spec_parse_htpasswd(content@);
            if find_key(users, username@) is None {
                r matches Err(UsersError::UserNotFound(u)) && u@ == username@
            } else {
                r matches Ok(s) && s@ == spec_generate(spec_remove_key(users, username@))
            }
        }),
{
    let mut users = parse_htpasswd(content);
    let ghost dv = users.deep_view();
    match find_user_index(&users, username) {
        Some(i) => {
            users.remove(i);
            proof {
                assert(users.deep_view() =~= spec_remove_key(dv, username@));
            }
            Ok(generate_htpasswd(&users))
        },
        None => Err(UsersError::UserNotFound(username.to_owned())),
    }
}

/// Replaces the named account's hash with one computed for the new
/// password, after validating the password; the account must exist.
#[verifier::loop_isolation(false)]
pub fn change_user_password_content(content: &str, username: &str, new_password: &str) -> (r:
    Result<String, UsersError>)
    ensures
        ({
            let users = spec_parse_htpasswd(content@);
            if spec_password_len(new_password) == 0 {
                r == Err::<String, UsersError>(UsersError::EmptyPassword)
            } else if spec_password_len(new_password) < 4 {
                r == Err::<String, UsersError>(UsersError::PasswordTooShort)
            } else if find_key(users, username@) is None {
                r matches Err(UsersError::UserNotFound(u)) && u@ == username@
            } else {
                (r matches Ok(s) && exists|h: Seq<char>|
                    s@ == spec_generate(spec_upsert(users, username@, h))) || r matches Err(
                    UsersError::HashFailed(_),
                )
            }
        }),
{
    if new_password.as_bytes().len() == 0 {
        return Err(UsersError::EmptyPassword);
    }
    if new_password.as_bytes().len() < 4 {
        return Err(UsersError::PasswordTooShort);
    }
    let mut users = parse_htpasswd(content);
    let ghost dv = users.deep_view();
    if find_user_index(&users, username).is_none() {
        return Err(UsersError::UserNotFound(username.to_owned()));
    }
    let hash = match hash_password(new_password) {
        Ok(h) => h,
        Err(e) => {
            return Err(UsersError::HashFailed(e));
        },
    };
    upsert(&mut users, username.to_owned(), hash);
    Ok(generate_htpasswd(&users))
}

} // verus!
