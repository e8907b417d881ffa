//! The credential store: user names with their numeric identity and their
//! encoded password hash, loaded from the records of a flat file.

use crate::text::{chars_of, parse_u32_in, parse_u32_spec, SEPARATOR};
use vstd::hash_map::StringHashMap;
use vstd::prelude::*;
use vstd::string::{StrSliceExecFns, StringExecFns};

verus! {

/// One record of the credential file, as plain text and number.
pub struct Record {
    pub user_id: u32,
    pub username: Seq<char>,
    pub password_hash: Seq<char>,
}

/// One entry of the credential store.
pub struct CredentialEntry {
    pub username: String,
    pub user_id: u32,
    pub password_hash: String,
}

impl View for CredentialEntry {
    type V = Record;

    open spec fn view(&self) -> Record {
        Record {
            user_id: self.user_id,
            username: self.username@,
            password_hash: self.password_hash@,
        }
    }
}

/// Where the first separator of `s` stands; `s.len()` where it has none.
pub open spec fn first_sep(s: Seq<char>) -> nat
    decreases s.len(),
{
    if s.len() == 0 || s[0] == SEPARATOR {
        0
    } else {
        1 + first_sep(s.skip(1))
    }
}

/// What a line of the credential file holds: `user_id~username~password_hash`,
/// exactly three fields, the first of them a `u32`. Any other line holds nothing.
pub open spec fn parse_line_spec(s: Seq<char>) -> Option<Record> {
    let i1 = first_sep(s);
    let rest1 = s.skip(i1 as int + 1);
    let i2 = first_sep(rest1);
    let rest2 = rest1.skip(i2 as int + 1);
    if i1 < s.len() && i2 < rest1.len() && first_sep(rest2) == rest2.len() {
        match parse_u32_spec(s.take(i1 as int)) {
            Some(user_id) => Some(
                Record { user_id, username: rest1.take(i2 as int), password_hash: rest2 },
            ),
            None => None,
        }
    } else {
        None
    }
}

/// `first_sep` is the least position that holds a separator.
pub proof fn lemma_first_sep(s: Seq<char>, i: int)
    requires
        0 <= i <= s.len(),
        forall|j: int| 0 <= j < i ==> s[j] != SEPARATOR,
        i == s.len() || s[i] == SEPARATOR,
    ensures
        first_sep(s) == i,
    decreases i,
{
    if i > 0 {
        let rest = s.skip(1);
        assert forall|j: int| 0 <= j < i - 1 implies rest[j] != SEPARATOR by {
            assert(rest[j] == s[j + 1]);
        }
        lemma_first_sep(rest, i - 1);
    }
}

/// The position of the first separator at or after `from`; `chars.len()` where
/// there is none.
fn find_sep(chars: &Vec<char>, from: usize) -> (r: usize)
    requires
        from <= chars@.len(),
    ensures
        from <= r <= chars@.len(),
        r - from == first_sep(chars@.skip(from as int)),
{
    let mut i: usize = from;
    while i < chars.len() && chars[i] != SEPARATOR
        invariant
            from <= i <= chars@.len(),
            forall|j: int| from <= j < i ==> chars@[j] != SEPARATOR,
        decreases chars@.len() - i,
    {
        i = i + 1;
    }
    proof {
        let rest = chars@.skip(from as int);
        assert forall|j: int| 0 <= j < i - from implies rest[j] != SEPARATOR by {
            assert(rest[j] == chars@[from + j]);
        }
        lemma_first_sep(rest, i - from);
    }
    i
}

/// Reads one line of the credential file.
pub fn parse_line(line: &str) -> (r: Option<CredentialEntry>)
    ensures
        match r {
            Some(entry) => parse_line_spec(line@) == Some(entry@),
            None => parse_line_spec(line@) is None,
        },
{
    let chars = chars_of(line);
    let n = chars.len();
    let ghost s = line@;
    assert(chars@.skip(0) == s);
    let i1 = find_sep(&chars, 0);
    if i1 >= n {
        return None;
    }
    let ghost rest1 = s.skip(i1 + 1);
    let i2 = find_sep(&chars, i1 + 1);
    if i2 >= n {
        return None;
    }
    let ghost rest2 = rest1.skip(i2 - i1);
    assert(rest2 == chars@.skip(i2 + 1));
    let i3 = find_sep(&chars, i2 + 1);
    if i3 < n {
        return None;
    }
    assert(chars@.subrange(0, i1 as int) == s.take(i1 as int));
    match parse_u32_in(&chars, 0, i1) {
        None => None,
        Some(user_id) => {
            let username = String::from_str(line.substring_char(i1 + 1, i2));
            let password_hash = String::from_str(line.substring_char(i2 + 1, n));
            assert(username@ == rest1.take(i2 - i1 - 1));
            assert(password_hash@ == rest2);
            Some(CredentialEntry { username, user_id, password_hash })
        },
    }
}

/// What the store knows of one user: the identity and the encoded hash.
pub type Credential = (u32, Seq<char>);

/// The table that the lines of a credential file give: each well-formed line
/// sets the entry of its user name, so that of two lines with one name the
/// later one stays. Lines that are not well formed change nothing.
pub open spec fn load_spec(lines: Seq<Seq<char>>) -> Map<Seq<char>, Credential>
    decreases lines.len(),
{
    if lines.len() == 0 {
        Map::empty()
    } else {
        let before = load_spec(lines.drop_last());
        match parse_line_spec(lines.last()) {
            Some(record) => before.insert(record.username, (record.user_id, record.password_hash)),
            None => before,
        }
    }
}

/// How many of the lines are well formed.
pub open spec fn loaded_count(lines: Seq<Seq<char>>) -> nat
    decreases lines.len(),
{
    if lines.len() == 0 {
        0
    } else {
        loaded_count(lines.drop_last()) + if parse_line_spec(lines.last()) is Some {
            1nat
        } else {
            0nat
        }
    }
}

/// The texts of a sequence of strings.
pub open spec fn texts(lines: Seq<String>) -> Seq<Seq<char>> {
    lines.map_values(|line: String| line@)
}

/// No more lines are well formed than there are lines.
pub proof fn lemma_loaded_count_bound(lines: Seq<Seq<char>>)
    ensures
        loaded_count(lines) <= lines.len(),
    decreases lines.len(),
{
    if lines.len() > 0 {
        lemma_loaded_count_bound(lines.drop_last());
    }
}

/// A user name is in the table exactly if some well-formed line carries it.
pub proof fn lemma_load_contains(lines: Seq<Seq<char>>, username: Seq<char>)
    ensures
        load_spec(lines).contains_key(username) <==> exists|i: int|
            0 <= i < lines.len() && (#[trigger] parse_line_spec(lines[i])) is Some
                && parse_line_spec(lines[i])->0.username == username,
    decreases lines.len(),
{
    if lines.len() > 0 {
        let front = lines.drop_last();
        lemma_load_contains(front, username);
        let last = lines.len() - 1;
        if load_spec(lines).contains_key(username) {
            if load_spec(front).contains_key(username) {
                let i = choose|i: int|
                    0 <= i < front.len() && (#[trigger] parse_line_spec(front[i])) is Some
                        && parse_line_spec(front[i])->0.username == username;
                assert(front[i] == lines[i]);
            } else {
                assert(parse_line_spec(lines[last]) is Some);
            }
        }
        if exists|i: int|
            0 <= i < lines.len() && (#[trigger] parse_line_spec(lines[i])) is Some
                && parse_line_spec(lines[i])->0.username == username {
            let i = choose|i: int|
                0 <= i < lines.len() && (#[trigger] parse_line_spec(lines[i])) is Some
                    && parse_line_spec(lines[i])->0.username == username;
            if i < last {
                assert(front[i] == lines[i]);
            }
        }
    }
}

/// Of the well-formed lines that carry one user name, the last decides the
/// entry.
pub proof fn lemma_last_record_wins(lines: Seq<Seq<char>>, i: int)
    requires
        0 <= i < lines.len(),
        parse_line_spec(lines[i]) is Some,
        forall|j: int|
            i < j < lines.len() && (#[trigger] parse_line_spec(lines[j])) is Some
                ==> parse_line_spec(lines[j])->0.username != parse_line_spec(lines[i])->0.username,
    ensures
        load_spec(lines).contains_key(parse_line_spec(lines[i])->0.username),
        load_spec(lines)[parse_line_spec(lines[i])->0.username] == (
            parse_line_spec(lines[i])->0.user_id,
            parse_line_spec(lines[i])->0.password_hash,
        ),
    decreases lines.len(),
{
    let last = lines.len() - 1;
    if i < last {
        let front = lines.drop_last();
        assert(front[i] == lines[i]);
        assert forall|j: int|
            i < j < front.len() && (#[trigger] parse_line_spec(front[j])) is Some implies parse_line_spec(
            front[j],
        )->0.username != parse_line_spec(front[i])->0.username by {
            assert(front[j] == lines[j]);
        }
        lemma_last_record_wins(front, i);
        assert(parse_line_spec(lines[last]) is Some ==> parse_line_spec(lines[last])->0.username
            != parse_line_spec(lines[i])->0.username);
    }
}

/// What a password check is worth once the hash has been compared: the
/// identity on a positive match, nothing on a mismatch or an unreadable hash.
pub open spec fn granted(user_id: u32, verdict: Option<bool>) -> Option<u32> {
    if verdict == Some(true) {
        Some(user_id)
    } else {
        None
    }
}

/// The identity that a table of credentials yields for a user name, given what
/// comparing the stored hash with the password gave.
pub open spec fn accepted(
    table: Map<Seq<char>, Credential>,
    username: Seq<char>,
    password: Seq<char>,
) -> Option<u32> {
    if table.contains_key(username) {
        granted(table[username].0, argon2_verify_encoded(table[username].1, password))
    } else {
        None
    }
}

/// What `argon2::verify_encoded` returns for an encoded hash and the UTF-8
/// bytes of a password: `Some(matches)`, or `None` where it returns an error.
pub uninterp spec fn argon2_verify_encoded(encoded: Seq<char>, password: Seq<char>) -> Option<bool>;

/// Calls `argon2::verify_encoded` on the encoded hash and the bytes of the
/// password. The function decodes the hash, which carries the variant, the
/// cost parameters and the salt, hashes the password under them and compares;
/// it reads nothing else, so its result is named by
/// [`argon2_verify_encoded`]. Time and memory of the call are those that the
/// encoded hash asks for.
#[verifier::external_body]
fn verify_encoded(encoded: &str, password: &str) -> (verdict: Option<bool>)
    ensures
        verdict == argon2_verify_encoded(encoded@, password@),
{
    argon2::verify_encoded(encoded, password.as_bytes()).ok()
}

/// The one capability of a credential store: to tell whose password this is.
pub trait VerifyPassword {
    /// The identity that the store yields for this user name and password.
    spec fn accepts(&self, username: Seq<char>, password: Seq<char>) -> Option<u32>;

    fn check_password(&self, username: &str, password: &str) -> (r: Option<u32>)
        ensures
            r == self.accepts(username@, password@),
    ;
}

/// The credentials of a flat file, with Argon2 password hashes.
pub struct ArgonPasswordsInFile {
    users: StringHashMap<(u32, String)>,
    loaded: usize,
}

impl View for ArgonPasswordsInFile {
    type V = Map<Seq<char>, Credential>;

    closed spec fn view(&self) -> Map<Seq<char>, Credential> {
        self.users@.map_values(|entry: (u32, String)| (entry.0, entry.1@))
    }
}

/// Decides a password check from the outcome of the hash comparison.
pub fn grant(user_id: u32, verdict: Option<bool>) -> (r: Option<u32>)
    ensures
        r == granted(user_id, verdict),
{
    match verdict {
        Some(true) => Some(user_id),
        _ => None,
    }
}

impl ArgonPasswordsInFile {
    /// How many lines of the file were well formed.
    pub closed spec fn loaded_records(&self) -> nat {
        self.loaded as nat
    }

    /// Builds the store from what reading the credential file gave: `None`
    /// where the file could not be read, else its lines in order, without
    /// their line ends.
    pub fn try_from(file: Option<Vec<String>>) -> (r: Result<ArgonPasswordsInFile, &'static str>)
        ensures
            match file {
                None => r matches Err(message) && message@ == "unable to read the file"@,
                Some(lines) => r matches Ok(store) && store@ == load_spec(texts(lines@))
                    && store.loaded_records() == loaded_count(texts(lines@)),
            },
    {
        let lines = match file {
            None => {
                return Err("unable to read the file");
            },
            Some(lines) => lines,
        };
        let mut users: StringHashMap<(u32, String)> = StringHashMap::new();
        let mut loaded: usize = 0;
        let ghost all = texts(lines@);
        assert(all.take(0) == Seq::<Seq<char>>::empty());
        assert(users@.map_values(|entry: (u32, String)| (entry.0, entry.1@)) == load_spec(
            all.take(0),
        ));
        let mut i: usize = 0;
        while i < lines.len()
            invariant
                i <= lines@.len(),
                all == texts(lines@),
                users@.map_values(|entry: (u32, String)| (entry.0, entry.1@)) == load_spec(
                    all.take(i as int),
                ),
                loaded == loaded_count(all.take(i as int)),
            decreases lines@.len() - i,
        {
            let ghost before = users@;
            let ghost next = all.take(i + 1);
            assert(next.drop_last() == all.take(i as int));
            assert(next.last() == lines@[i as int]@);
            proof {
                lemma_loaded_count_bound(next);
            }
            match parse_line(lines[i].as_str()) {
                Some(entry) => {
                    users.insert(entry.username, (entry.user_id, entry.password_hash));
                    loaded = loaded + 1;
                    assert(users@.map_values(|entry: (u32, String)| (entry.0, entry.1@))
                        == before.map_values(|entry: (u32, String)| (entry.0, entry.1@)).insert(
                        entry.username@,
                        (entry.user_id, entry.password_hash@),
                    ));
                },
                None => {},
            }
            i = i + 1;
        }
        assert(all.take(i as int) == all);
        Ok(ArgonPasswordsInFile { users, loaded })
    }

    /// How many lines of the file were well formed.
    pub fn loaded(&self) -> (n: usize)
        ensures
            n == self.loaded_records(),
    {
        self.loaded
    }
}

impl VerifyPassword for ArgonPasswordsInFile {
    open spec fn accepts(&self, username: Seq<char>, password: Seq<char>) -> Option<u32> {
        accepted(self@, username, password)
    }

    /// The identity of `username` where the password matches the stored hash;
    /// `None` for an unknown name, a hash that cannot be read, or a mismatch.
    fn check_password(&self, username: &str, password: &str) -> (r: Option<u32>) {
        match self.users.get(username) {
            None => None,
            Some(entry) => {
                let verdict = verify_encoded(entry.1.as_str(), password);
                grant(entry.0, verdict)
            },
        }
    }
}

} // verus!
