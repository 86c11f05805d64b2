//! The user database as the server sees it: the statements it sends, and
//! how it reads users and passwords out of the rows that come back. The
//! connection and the queries themselves run beside the library.
use vstd::prelude::*;
use vstd::string::*;
use crate::protocol::{LoginInfo, User};
use crate::server::concat3;
use crate::text::{trim_ascii, trim_ascii_string};

verus! {

/// Column of the user ID in a row of `users`.
pub const UID_COLUMN: usize = 0;
/// Column of the username.
pub const USERNAME_COLUMN: usize = 1;
/// Column of the password digest.
pub const PASSWORD_COLUMN: usize = 2;
/// Column of the user's room.
pub const ROOM_COLUMN: usize = 3;

/// A value read from a database row. A floating-point value is kept
/// without its number, which nothing here reads.
#[derive(Debug)]
pub enum DbValue {
    Null,
    Integer(i64),
    Real,
    Text(String),
    Blob(Vec<u8>),
}

/// The statement that looks a user up by name, case-insensitively.
pub fn user_lookup_query(username: &str) -> (res: String)
    ensures
        res@ == "SELECT DISTINCT * FROM users WHERE LOWER(username) LIKE LOWER('"@ + username@ + "')"@,
{
    concat3("SELECT DISTINCT * FROM users WHERE LOWER(username) LIKE LOWER('", username, "')")
}

/// The statement that fetches the rows whose username contains `username`,
/// case-insensitively, for a password check.
pub fn credentials_query(username: &str) -> (res: String)
    ensures
        res@ == "SELECT DISTINCT * FROM users WHERE LOWER(username) LIKE LOWER('%"@ + username@ + "%')"@,
{
    concat3("SELECT DISTINCT * FROM users WHERE LOWER(username) LIKE LOWER('%", username, "%')")
}

/// The statement that records a new user.
pub fn insert_user_statement() -> (res: String)
    ensures
        res@ == "INSERT INTO users (username, password, room) VALUES (?, ?, ?)"@,
{
    String::from_str("INSERT INTO users (username, password, room) VALUES (?, ?, ?)")
}

/// The statement that creates the table of users when it is missing.
pub fn create_table_statement() -> (res: String)
    ensures
        res@ == "CREATE TABLE IF NOT EXISTS users (ID INTEGER PRIMARY KEY AUTOINCREMENT, username VARCHAR(50) UNIQUE, password VARCHAR(100), room VARCHAR(100))"@,
{
    String::from_str("CREATE TABLE IF NOT EXISTS users (ID INTEGER PRIMARY KEY AUTOINCREMENT, username VARCHAR(50) UNIQUE, password VARCHAR(100), room VARCHAR(100))")
}

/// The values bound to `insert_user_statement` for a new user: the name
/// and the password digest trimmed of ASCII whitespace, and the room
/// "Global".
pub fn new_user_record(username: &str, password: &str) -> (res: (String, String, String))
    ensures
        res.0@ == trim_ascii(username@),
        res.1@ == trim_ascii(password@),
        res.2@ == "Global"@,
{
    (trim_ascii_string(username), trim_ascii_string(password), String::from_str("Global"))
}

/// The integer in column `idx` of `row`, if that column holds one.
pub open spec fn integer_at(row: Seq<DbValue>, idx: int) -> Option<i64> {
    if 0 <= idx < row.len() && row[idx] is Integer {
        Some(row[idx]->Integer_0)
    } else {
        None
    }
}

/// The text in column `idx` of `row`, if that column holds text.
pub open spec fn text_at(row: Seq<DbValue>, idx: int) -> Option<Seq<char>> {
    if 0 <= idx < row.len() && row[idx] is Text {
        Some(row[idx]->Text_0@)
    } else {
        None
    }
}

fn get_integer(row: &[DbValue], idx: usize) -> (res: Option<i64>)
    ensures
        res == integer_at(row@, idx as int),
{
    if idx < row.len() {
        match &row[idx] {
            DbValue::Integer(i) => Some(*i),
            _ => None,
        }
    } else {
        None
    }
}

fn get_text(row: &[DbValue], idx: usize) -> (res: Option<String>)
    ensures
        match res {
            Some(t) => text_at(row@, idx as int) == Some(t@),
            None => text_at(row@, idx as int) is None,
        },
{
    if idx < row.len() {
        match &row[idx] {
            DbValue::Text(t) => Some(t.clone()),
            _ => None,
        }
    } else {
        None
    }
}

/// Reads a user out of a row of `users`: the user ID from its integer
/// column, the room and the name from their text columns. A row that lacks
/// any of the three gives no user.
pub fn user_from_row(row: &[DbValue]) -> (res: Option<User>)
    ensures
        res is Some <==> (integer_at(row@, UID_COLUMN as int) is Some && text_at(row@, ROOM_COLUMN as int) is Some
            && text_at(row@, USERNAME_COLUMN as int) is Some),
        res matches Some(u) ==> {
            &&& u.user_id == integer_at(row@, UID_COLUMN as int)->0 as usize
            &&& u.username@ == text_at(row@, USERNAME_COLUMN as int)->0
            &&& u.current_room_name@ == text_at(row@, ROOM_COLUMN as int)->0
        },
{
    let user_id = match get_integer(row, UID_COLUMN) {
        Some(i) => i,
        None => {
            return None;
        },
    };
    let room_name = match get_text(row, ROOM_COLUMN) {
        Some(r) => r,
        None => {
            return None;
        },
    };
    let username = match get_text(row, USERNAME_COLUMN) {
        Some(u) => u,
        None => {
            return None;
        },
    };
    Some(User { username, user_id: user_id as usize, current_room_name: room_name })
}

/// The user read from the first row of a lookup, if there is a row and it
/// holds a user.
pub fn find_user_in_rows(rows: &[Vec<DbValue>]) -> (res: Option<User>)
    ensures
        rows@.len() == 0 ==> res is None,
        rows@.len() > 0 ==> {
            let row = rows@[0]@;
            &&& res is Some <==> (integer_at(row, UID_COLUMN as int) is Some && text_at(row, ROOM_COLUMN as int) is Some
                && text_at(row, USERNAME_COLUMN as int) is Some)
            &&& res matches Some(u) ==> {
                &&& u.user_id == integer_at(row, UID_COLUMN as int)->0 as usize
                &&& u.username@ == text_at(row, USERNAME_COLUMN as int)->0
                &&& u.current_room_name@ == text_at(row, ROOM_COLUMN as int)->0
            }
        },
{
    if rows.len() == 0 {
        return None;
    }
    user_from_row(rows[0].as_slice())
}

/// The code of `c` with an ASCII capital letter made small, as SQL's
/// `LOWER` does.
pub open spec fn ascii_lower(c: char) -> u32 {
    if 'A' <= c && c <= 'Z' {
        (c as u32 + 32) as u32
    } else {
        c as u32
    }
}

/// Whether two names are equal once ASCII letters are made small, which is
/// how the lookup compares names.
pub open spec fn same_name(a: Seq<char>, b: Seq<char>) -> bool {
    a.len() == b.len() && forall|i: int| 0 <= i < a.len() ==> #[trigger] ascii_lower(a[i]) == ascii_lower(b[i])
}

/// Whether `row` is the row of the user called `name`.
pub open spec fn is_own_row(row: Seq<DbValue>, name: Seq<char>) -> bool {
    text_at(row, USERNAME_COLUMN as int) matches Some(n) && same_name(n, name)
}

/// The rows of a query result.
pub open spec fn rows_view(rows: Seq<Vec<DbValue>>) -> Seq<Seq<DbValue>> {
    rows.map_values(|r: Vec<DbValue>| r@)
}

/// Whether `i` is the first row of `rows` that belongs to the user `name`.
pub open spec fn first_own_row_at(rows: Seq<Seq<DbValue>>, name: Seq<char>, i: int) -> bool {
    &&& 0 <= i < rows.len()
    &&& is_own_row(rows[i], name)
    &&& forall|j: int| 0 <= j < i ==> !#[trigger] is_own_row(rows[j], name)
}

/// The first row of `rows` that belongs to the user `name`, if any does.
pub open spec fn first_own_row(rows: Seq<Seq<DbValue>>, name: Seq<char>) -> Option<int> {
    if exists|i: int| first_own_row_at(rows, name, i) {
        Some(choose|i: int| first_own_row_at(rows, name, i))
    } else {
        None
    }
}

/// Whether `row` holds a readable user: an integer ID, a room and a name.
pub open spec fn row_has_user(row: Seq<DbValue>) -> bool {
    &&& integer_at(row, UID_COLUMN as int) is Some
    &&& text_at(row, ROOM_COLUMN as int) is Some
    &&& text_at(row, USERNAME_COLUMN as int) is Some
}

/// Whether the user `name`'s own row in `rows` stores the digest
/// `password`.
pub open spec fn password_matches(rows: Seq<Seq<DbValue>>, name: Seq<char>, password: Seq<char>) -> bool {
    first_own_row(rows, name) matches Some(i) && text_at(rows[i], PASSWORD_COLUMN as int) == Some(password)
}

/// What a login attempt amounts to, given the rows of the user lookup.
pub enum LoginVerdict {
    /// The user's own row, at this index, stores the password given.
    Accept(int),
    /// The user has a row, but it does not store the password given (or it
    /// holds no readable user).
    Reject,
    /// No row belongs to the user: it is a new user.
    Register,
}

/// The verdict on a login of `name` with the digest `password`.
pub open spec fn login_verdict(rows: Seq<Seq<DbValue>>, name: Seq<char>, password: Seq<char>) -> LoginVerdict {
    match first_own_row(rows, name) {
        None => LoginVerdict::Register,
        Some(i) => if password_matches(rows, name, password) && row_has_user(rows[i]) {
            LoginVerdict::Accept(i)
        } else {
            LoginVerdict::Reject
        },
    }
}

/// The decision on a login attempt, as the server acts on it.
#[derive(Debug)]
pub enum LoginDecision {
    /// Log the user in.
    Accept { user: User },
    /// Refuse the login.
    Reject,
    /// Record a new user first.
    Register,
}

/// Whether `decision` carries out `verdict` on `rows`.
pub open spec fn decision_follows(decision: LoginDecision, verdict: LoginVerdict, rows: Seq<Seq<DbValue>>) -> bool {
    match verdict {
        LoginVerdict::Accept(i) => decision matches LoginDecision::Accept { user }
            && user.user_id == integer_at(rows[i], UID_COLUMN as int)->0 as usize
            && user.username@ == text_at(rows[i], USERNAME_COLUMN as int)->0
            && user.current_room_name@ == text_at(rows[i], ROOM_COLUMN as int)->0,
        LoginVerdict::Reject => decision is Reject,
        LoginVerdict::Register => decision is Register,
    }
}

fn ascii_lower_exec(c: char) -> (res: u32)
    ensures
        res == ascii_lower(c),
{
    let n = c as u32;
    if 'A' <= c && c <= 'Z' {
        n + 32
    } else {
        n
    }
}

/// Whether two names are equal once ASCII letters are made small.
pub fn names_match(a: &str, b: &str) -> (res: bool)
    ensures
        res == same_name(a@, b@),
{
    let n = a.unicode_len();
    let m = b.unicode_len();
    if n != m {
        return false;
    }
    for i in 0..n
        invariant
            n == a@.len(),
            m == b@.len(),
            n == m,
            forall|k: int| 0 <= k < i ==> #[trigger] ascii_lower(a@[k]) == ascii_lower(b@[k]),
    {
        if ascii_lower_exec(a.get_char(i)) != ascii_lower_exec(b.get_char(i)) {
            return false;
        }
    }
    true
}

fn row_is_own(row: &[DbValue], name: &str) -> (res: bool)
    ensures
        res == is_own_row(row@, name@),
{
    match get_text(row, USERNAME_COLUMN) {
        Some(n) => names_match(n.as_str(), name),
        None => false,
    }
}

/// The index of the first row that belongs to the user `name`.
fn find_own_row(rows: &[Vec<DbValue>], name: &str) -> (res: Option<usize>)
    ensures
        match res {
            Some(i) => first_own_row(rows_view(rows@), name@) == Some(i as int),
            None => first_own_row(rows_view(rows@), name@) is None,
        },
{
    let ghost rv = rows_view(rows@);
    let n = rows.len();
    for i in 0..n
        invariant
            n == rows@.len(),
            rv == rows_view(rows@),
            forall|j: int| 0 <= j < i ==> !#[trigger] is_own_row(rv[j], name@),
    {
        if row_is_own(rows[i].as_slice(), name) {
            proof {
                assert(first_own_row_at(rv, name@, i as int));
                let c = choose|k: int| first_own_row_at(rv, name@, k);
                if c < i {
                    assert(!is_own_row(rv[c], name@));
                } else if c > i {
                    assert(!is_own_row(rv[i as int], name@));
                }
            }
            return Some(i);
        }
    }
    proof {
        if exists|k: int| first_own_row_at(rv, name@, k) {
            let c = choose|k: int| first_own_row_at(rv, name@, k);
            assert(is_own_row(rv[c], name@));
        }
    }
    None
}

/// Whether the user's own row among the rows of a credentials lookup
/// stores the password digest given at login. A row of another user whose
/// name merely contains the one given does not count.
pub fn credentials_match(rows: &[Vec<DbValue>], login_info: &LoginInfo) -> (res: bool)
    ensures
        res == password_matches(rows_view(rows@), login_info.username@, login_info.password@),
{
    match find_own_row(rows, login_info.username.as_str()) {
        Some(i) => match get_text(rows[i].as_slice(), PASSWORD_COLUMN) {
            Some(pass_hash) => pass_hash == login_info.password,
            None => false,
        },
        None => false,
    }
}

/// Decides a login from the rows of the user lookup: the user's own row
/// must store the password digest given; a user without a row is to be
/// recorded first.
pub fn decide_login(rows: &[Vec<DbValue>], login_info: &LoginInfo) -> (res: LoginDecision)
    ensures
        decision_follows(res, login_verdict(rows_view(rows@), login_info.username@, login_info.password@), rows_view(rows@)),
{
    match find_own_row(rows, login_info.username.as_str()) {
        None => LoginDecision::Register,
        Some(i) => {
            if !credentials_match(rows, login_info) {
                return LoginDecision::Reject;
            }
            match user_from_row(rows[i].as_slice()) {
                Some(user) => LoginDecision::Accept { user },
                None => LoginDecision::Reject,
            }
        },
    }
}

/// A login whose digest differs from the one stored in the user's own row
/// is refused.
pub proof fn lemma_wrong_password_rejected(rows: Seq<Seq<DbValue>>, name: Seq<char>, password: Seq<char>, i: int)
    requires
        first_own_row(rows, name) == Some(i),
        text_at(rows[i], PASSWORD_COLUMN as int) != Some(password),
    ensures
        login_verdict(rows, name, password) == LoginVerdict::Reject,
{
}

/// A login is accepted only on the user's own row, and only when that row
/// stores the digest given.
pub proof fn lemma_accept_needs_password(rows: Seq<Seq<DbValue>>, name: Seq<char>, password: Seq<char>)
    requires
        login_verdict(rows, name, password) is Accept,
    ensures
        is_own_row(rows[login_verdict(rows, name, password)->0], name),
        text_at(rows[login_verdict(rows, name, password)->0], PASSWORD_COLUMN as int) == Some(password),
{
    let i = choose|i: int| first_own_row_at(rows, name, i);
}

} // verus!
