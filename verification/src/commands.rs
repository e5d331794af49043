use vstd::prelude::*;
use crate::models::{Credential, Vault};
use crate::crypto::{generate_salt, is_hex_of_16_bytes};

verus! {

// ---------------------------------------------------------------------------
// Input lines
// ---------------------------------------------------------------------------

/// Unicode White_Space, the property that `char::is_whitespace` and
/// `str::trim` go by: U+0009 to U+000D, U+0020, U+0085, U+00A0, U+1680,
/// U+2000 to U+200A, U+2028, U+2029, U+202F, U+205F and U+3000.
pub open spec fn is_white_space(c: char) -> bool {
    let u = c as u32;
    ||| 0x09 <= u <= 0x0D
    ||| u == 0x20
    ||| u == 0x85
    ||| u == 0xA0
    ||| u == 0x1680
    ||| 0x2000 <= u <= 0x200A
    ||| u == 0x2028
    ||| u == 0x2029
    ||| u == 0x202F
    ||| u == 0x205F
    ||| u == 0x3000
}

/// `s[i..j]` is `s` cut at both ends down to its first and last characters
/// that are not white space; where all of `s` is white space, the cut is
/// empty.
pub open spec fn trim_bounds(s: Seq<char>, i: int, j: int) -> bool {
    &&& 0 <= i <= j <= s.len()
    &&& forall|k: int| 0 <= k < i ==> is_white_space(#[trigger] s[k])
    &&& forall|k: int| j <= k < s.len() ==> is_white_space(#[trigger] s[k])
    &&& i < j ==> !is_white_space(s[i]) && !is_white_space(s[j - 1])
}

/// `t` is `s` without its leading and trailing white space.
pub open spec fn is_trim_of(t: Seq<char>, s: Seq<char>) -> bool {
    exists|i: int, j: int| #[trigger] trim_bounds(s, i, j) && t == s.subrange(i, j)
}

/// Every character of `s` is white space.
pub open spec fn all_white_space(s: Seq<char>) -> bool {
    forall|k: int| 0 <= k < s.len() ==> is_white_space(#[trigger] s[k])
}

/// `str::trim`: the line without its leading and trailing Unicode white
/// space.
#[verifier::external_body]
pub(crate) fn trim(s: &str) -> (res: &str)
    ensures
        is_trim_of(res@, s@),
{
    s.trim()
}

/// Trimming has one result: the cut at both ends is determined by the line.
pub proof fn law_trim_is_unique(s: Seq<char>, t1: Seq<char>, t2: Seq<char>)
    requires
        is_trim_of(t1, s),
        is_trim_of(t2, s),
    ensures
        t1 == t2,
{
    let (i1, j1) = choose|i: int, j: int| #[trigger] trim_bounds(s, i, j) && t1 == s.subrange(i, j);
    let (i2, j2) = choose|i: int, j: int| #[trigger] trim_bounds(s, i, j) && t2 == s.subrange(i, j);
    if i1 < j1 && i2 < j2 {
        if i1 < i2 {
            assert(is_white_space(s[i1]));
        }
        if i2 < i1 {
            assert(is_white_space(s[i2]));
        }
        if j1 < j2 {
            assert(is_white_space(s[j2 - 1]));
        }
        if j2 < j1 {
            assert(is_white_space(s[j1 - 1]));
        }
        assert(t1 =~= t2);
    } else if i1 < j1 {
        // the other cut is empty, so every character is white space
        assert(is_white_space(s[i1]));
    } else if i2 < j2 {
        assert(is_white_space(s[i2]));
    } else {
        assert(t1 =~= t2);
    }
}

/// A trimmed line that is not empty trims to itself.
pub proof fn law_trimmed_line_is_stable(s: Seq<char>, t: Seq<char>)
    requires
        is_trim_of(t, s),
        t.len() > 0,
    ensures
        is_trim_of(t, t),
        forall|u: Seq<char>| is_trim_of(u, t) ==> u == t,
{
    let (i, j) = choose|i: int, j: int| #[trigger] trim_bounds(s, i, j) && t == s.subrange(i, j);
    assert(trim_bounds(t, 0, t.len() as int));
    assert(t == t.subrange(0, t.len() as int));
    assert forall|u: Seq<char>| is_trim_of(u, t) implies u == t by {
        law_trim_is_unique(t, u, t);
    }
}

/// A line typed at the prompt, trimmed; nothing where nothing is left.
pub fn clean_input(raw: &str) -> (res: Option<String>)
    ensures
        res is None <==> all_white_space(raw@),
        res matches Some(s) ==> is_trim_of(s@, raw@) && s@.len() > 0,
{
    let cleaned = trim(raw);
    proof {
        let (i, j) = choose|i: int, j: int| #[trigger] trim_bounds(raw@, i, j) && cleaned@ == raw@.subrange(i, j);
        if all_white_space(raw@) && i < j {
            assert(is_white_space(raw@[i]));
        }
        if i == j {
            assert(all_white_space(raw@));
        }
    }
    if cleaned.is_empty() {
        None
    } else {
        Some(cleaned.to_owned())
    }
}

/// Whether the master password was typed the same way twice.
pub fn master_passwords_match(first: &String, second: &String) -> (res: bool)
    ensures
        res == (first@ == second@),
{
    *first == *second
}

// ---------------------------------------------------------------------------
// Adding a service
// ---------------------------------------------------------------------------

/// A fresh random password, drawn the way a salt is: the lowercase hex text
/// of 16 random bytes.
pub fn generate_password() -> (res: String)
    ensures
        is_hex_of_16_bytes(res@),
        res@.len() == 32,
{
    generate_salt()
}

/// The password typed for a new service, or a generated one where none was.
pub fn password_or_generated(typed: Option<String>) -> (res: String)
    ensures
        typed matches Some(p) ==> res@ == p@,
        typed is None ==> is_hex_of_16_bytes(res@) && res@.len() == 32,
{
    match typed {
        Some(p) => p,
        None => generate_password(),
    }
}

/// Stores a new service; a name that is already stored is refused and
/// nothing changes.
pub fn add_service(
    vault: &mut Vault,
    service_name: String,
    username: String,
    password_plana: String,
) -> (added: bool)
    ensures
        added == !old(vault).accounts@.contains_key(service_name@),
        added ==> final(vault).accounts@ == old(vault).accounts@.insert(
            service_name@,
            (username@, password_plana@),
        ),
        !added ==> final(vault).accounts@ == old(vault).accounts@,
        added ==> final(vault).accounts@.dom().len() == old(vault).accounts@.dom().len() + 1,
        !added ==> final(vault).accounts@.dom().len() == old(vault).accounts@.dom().len(),
        old(vault).accounts.is_consistent(),
        final(vault).accounts.is_consistent(),
        final(vault).salt == old(vault).salt,
{
    if vault.accounts.contains_key(service_name.as_str()) {
        return false;
    }
    let _ = vault.accounts.insert(service_name, Credential { username, password_plana });
    true
}

// ---------------------------------------------------------------------------
// Looking up and deleting
// ---------------------------------------------------------------------------

/// Why a command about one service was refused.
#[derive(PartialEq, Eq, Debug)]
pub enum ServiceRefusal {
    /// No service name was given.
    MissingName,
    /// No credential is stored under the name.
    NotFound,
}

/// The credential that `get` shows for the named service.
pub fn find_credential<'a>(arg: Option<&str>, vault: &'a Vault) -> (res: Result<&'a Credential, ServiceRefusal>)
    ensures
        arg is None ==> res == Err::<&Credential, ServiceRefusal>(ServiceRefusal::MissingName),
        arg matches Some(name) ==> (res is Ok <==> vault.accounts@.contains_key(name@)),
        arg matches Some(name) ==> (res is Err ==> res == Err::<&Credential, ServiceRefusal>(
            ServiceRefusal::NotFound,
        )),
        arg matches Some(name) ==> (res matches Ok(c) ==> c@ == vault.accounts@[name@]),
{
    match arg {
        None => Err(ServiceRefusal::MissingName),
        Some(name) => match vault.accounts.get(name) {
            Some(c) => Ok(c),
            None => Err(ServiceRefusal::NotFound),
        },
    }
}

/// Deletes the named service.
pub fn delete_service(arg: Option<&str>, vault: &mut Vault) -> (res: Result<(), ServiceRefusal>)
    ensures
        arg is None ==> res == Err::<(), ServiceRefusal>(ServiceRefusal::MissingName)
            && final(vault).accounts@ == old(vault).accounts@,
        arg matches Some(name) ==> (res is Ok <==> old(vault).accounts@.contains_key(name@)),
        arg matches Some(name) ==> (res is Err ==> res == Err::<(), ServiceRefusal>(
            ServiceRefusal::NotFound,
        )),
        arg matches Some(name) ==> final(vault).accounts@ == old(vault).accounts@.remove(name@),
        arg is Some ==> old(vault).accounts.is_consistent() && final(vault).accounts.is_consistent(),
        arg is Some && res is Ok ==> final(vault).accounts@.dom().len() + 1 == old(
            vault,
        ).accounts@.dom().len(),
        res is Err ==> final(vault).accounts@.dom().len() == old(vault).accounts@.dom().len(),
        final(vault).salt == old(vault).salt,
{
    match arg {
        None => Err(ServiceRefusal::MissingName),
        Some(name) => match vault.accounts.remove(name) {
            Some(_) => Ok(()),
            None => Err(ServiceRefusal::NotFound),
        },
    }
}

// ---------------------------------------------------------------------------
// Editing
// ---------------------------------------------------------------------------

/// What the edit prompt was asked to do.
#[derive(Clone, Copy, PartialEq, Eq, Debug)]
pub enum EditCommand {
    ServiceName,
    Username,
    Password,
    Help,
    Quit,
    Invalid,
}

/// The edit command that a word names; the edit help offers "quit", and
/// "q" is taken as well.
pub open spec fn edit_command_of(word: Seq<char>) -> EditCommand {
    if word == "service_name"@ {
        EditCommand::ServiceName
    } else if word == "username"@ {
        EditCommand::Username
    } else if word == "password"@ {
        EditCommand::Password
    } else if word == "help"@ {
        EditCommand::Help
    } else if word == "q"@ || word == "quit"@ {
        EditCommand::Quit
    } else {
        EditCommand::Invalid
    }
}

/// Reads the word typed at the edit prompt.
pub fn parse_edit_command(word: &str) -> (res: EditCommand)
    ensures
        res == edit_command_of(word@),
{
    let w = word.to_owned();
    if w == String::from_str("service_name") {
        EditCommand::ServiceName
    } else if w == String::from_str("username") {
        EditCommand::Username
    } else if w == String::from_str("password") {
        EditCommand::Password
    } else if w == String::from_str("help") {
        EditCommand::Help
    } else if w == String::from_str("q") || w == String::from_str("quit") {
        EditCommand::Quit
    } else {
        EditCommand::Invalid
    }
}

/// The service that `edit` works on: a name must be given and be stored.
pub fn edit_target<'a>(arg: Option<&'a str>, vault: &Vault) -> (res: Result<&'a str, ServiceRefusal>)
    ensures
        arg is None ==> res == Err::<&str, ServiceRefusal>(ServiceRefusal::MissingName),
        arg matches Some(name) ==> (vault.accounts@.contains_key(name@) ==> res == Ok::<
            &str,
            ServiceRefusal,
        >(name)),
        arg matches Some(name) ==> (!vault.accounts@.contains_key(name@) ==> res == Err::<
            &str,
            ServiceRefusal,
        >(ServiceRefusal::NotFound)),
{
    match arg {
        None => Err(ServiceRefusal::MissingName),
        Some(name) => if vault.accounts.contains_key(name) {
            Ok(name)
        } else {
            Err(ServiceRefusal::NotFound)
        },
    }
}

/// Moves the credential of `service_name` to `new_name`, replacing whatever
/// `new_name` held. Nothing changes where `service_name` is not stored.
pub fn rename_service(vault: &mut Vault, service_name: &str, new_name: String) -> (renamed: bool)
    ensures
        renamed == old(vault).accounts@.contains_key(service_name@),
        renamed ==> final(vault).accounts@ == old(vault).accounts@.remove(service_name@).insert(
            new_name@,
            old(vault).accounts@[service_name@],
        ),
        !renamed ==> final(vault).accounts@ == old(vault).accounts@,
        final(vault).accounts@.dom().len() <= old(vault).accounts@.dom().len(),
        old(vault).accounts.is_consistent(),
        final(vault).accounts.is_consistent(),
        final(vault).salt == old(vault).salt,
{
    match vault.accounts.remove(service_name) {
        Some(credential_backup) => {
            let _ = vault.accounts.insert(new_name, credential_backup);
            proof {
                law_rename_moves_credential(old(vault).accounts@, service_name@, new_name@);
            }
            true
        },
        None => {
            assert(old(vault).accounts@.remove(service_name@) =~= old(vault).accounts@);
            false
        },
    }
}

/// Gives the named service a new username and keeps its password. Nothing
/// changes where the service is not stored.
pub fn update_username(vault: &mut Vault, service_name: &str, new_username: String) -> (updated: bool)
    ensures
        updated == old(vault).accounts@.contains_key(service_name@),
        updated ==> final(vault).accounts@ == old(vault).accounts@.insert(
            service_name@,
            (new_username@, old(vault).accounts@[service_name@].1),
        ),
        !updated ==> final(vault).accounts@ == old(vault).accounts@,
        final(vault).accounts@.dom() == old(vault).accounts@.dom(),
        old(vault).accounts.is_consistent(),
        final(vault).accounts.is_consistent(),
        final(vault).salt == old(vault).salt,
{
    match vault.accounts.remove(service_name) {
        Some(credential_backup) => {
            let _ = vault.accounts.insert(
                service_name.to_owned(),
                Credential { username: new_username, password_plana: credential_backup.password_plana },
            );
            assert(final(vault).accounts@ =~= old(vault).accounts@.insert(
                service_name@,
                (new_username@, old(vault).accounts@[service_name@].1),
            ));
            assert(final(vault).accounts@.dom() =~= old(vault).accounts@.dom());
            true
        },
        None => {
            assert(old(vault).accounts@.remove(service_name@) =~= old(vault).accounts@);
            false
        },
    }
}

/// Gives the named service a new password and keeps its username. Nothing
/// changes where the service is not stored.
pub fn update_password(vault: &mut Vault, service_name: &str, new_password: String) -> (updated: bool)
    ensures
        updated == old(vault).accounts@.contains_key(service_name@),
        updated ==> final(vault).accounts@ == old(vault).accounts@.insert(
            service_name@,
            (old(vault).accounts@[service_name@].0, new_password@),
        ),
        !updated ==> final(vault).accounts@ == old(vault).accounts@,
        final(vault).accounts@.dom() == old(vault).accounts@.dom(),
        old(vault).accounts.is_consistent(),
        final(vault).accounts.is_consistent(),
        final(vault).salt == old(vault).salt,
{
    match vault.accounts.remove(service_name) {
        Some(credential_backup) => {
            let _ = vault.accounts.insert(
                service_name.to_owned(),
                Credential { username: credential_backup.username, password_plana: new_password },
            );
            assert(final(vault).accounts@ =~= old(vault).accounts@.insert(
                service_name@,
                (old(vault).accounts@[service_name@].0, new_password@),
            ));
            assert(final(vault).accounts@.dom() =~= old(vault).accounts@.dom());
            true
        },
        None => {
            assert(old(vault).accounts@.remove(service_name@) =~= old(vault).accounts@);
            false
        },
    }
}

/// Applies an edit command that changes the named service, with the new
/// value typed for it: a new service name, username or password. The other
/// commands change nothing. The result tells whether the vault changed, and
/// so whether it has to be saved.
pub fn apply_edit(vault: &mut Vault, service_name: &str, command: EditCommand, new_value: String) -> (changed: bool)
    ensures
        command is ServiceName || command is Username || command is Password ==> changed
            == old(vault).accounts@.contains_key(service_name@),
        !(command is ServiceName || command is Username || command is Password) ==> !changed,
        command is ServiceName && changed ==> final(vault).accounts@ == old(vault).accounts@.remove(
            service_name@,
        ).insert(new_value@, old(vault).accounts@[service_name@]),
        command is Username && changed ==> final(vault).accounts@ == old(vault).accounts@.insert(
            service_name@,
            (new_value@, old(vault).accounts@[service_name@].1),
        ),
        command is Password && changed ==> final(vault).accounts@ == old(vault).accounts@.insert(
            service_name@,
            (old(vault).accounts@[service_name@].0, new_value@),
        ),
        !changed ==> final(vault).accounts@ == old(vault).accounts@,
        final(vault).accounts@.dom().len() <= old(vault).accounts@.dom().len(),
        final(vault).salt == old(vault).salt,
{
    match command {
        EditCommand::ServiceName => rename_service(vault, service_name, new_value),
        EditCommand::Username => update_username(vault, service_name, new_value),
        EditCommand::Password => update_password(vault, service_name, new_value),
        _ => false,
    }
}

// ---------------------------------------------------------------------------
// What the commands keep between them
// ---------------------------------------------------------------------------

/// A service that `add_service` stored is found by `find_credential` with
/// exactly the username and password it was added with, and every other
/// service is found as before.
pub proof fn law_added_service_is_found(
    accounts: Map<Seq<char>, (Seq<char>, Seq<char>)>,
    name: Seq<char>,
    username: Seq<char>,
    password: Seq<char>,
    other: Seq<char>,
)
    requires
        !accounts.contains_key(name),
    ensures
        accounts.insert(name, (username, password)).contains_key(name),
        accounts.insert(name, (username, password))[name] == (username, password),
        other != name ==> (accounts.insert(name, (username, password)).contains_key(other)
            == accounts.contains_key(other)),
        other != name && accounts.contains_key(other) ==> accounts.insert(
            name,
            (username, password),
        )[other] == accounts[other],
{
}

/// A service that `delete_service` removed is no longer found, and every
/// other service is found as before.
pub proof fn law_deleted_service_is_gone(
    accounts: Map<Seq<char>, (Seq<char>, Seq<char>)>,
    name: Seq<char>,
    other: Seq<char>,
)
    ensures
        !accounts.remove(name).contains_key(name),
        other != name ==> (accounts.remove(name).contains_key(other) == accounts.contains_key(
            other,
        )),
        other != name && accounts.contains_key(other) ==> accounts.remove(name)[other]
            == accounts[other],
{
}

/// After `rename_service`, the new name holds the credential that the old
/// name held, the old name is gone unless it is the new one, and the number
/// of stored services does not grow.
pub proof fn law_rename_moves_credential(
    accounts: Map<Seq<char>, (Seq<char>, Seq<char>)>,
    name: Seq<char>,
    new_name: Seq<char>,
)
    requires
        accounts.dom().finite(),
        accounts.contains_key(name),
    ensures
        accounts.remove(name).insert(new_name, accounts[name])[new_name] == accounts[name],
        name != new_name ==> !accounts.remove(name).insert(new_name, accounts[name]).contains_key(
            name,
        ),
        accounts.remove(name).insert(new_name, accounts[name]).dom().len() <= accounts.dom().len(),
{
    let renamed = accounts.remove(name).insert(new_name, accounts[name]);
    if name == new_name {
        assert(renamed.dom() =~= accounts.dom());
    } else if accounts.contains_key(new_name) {
        assert(renamed.dom() =~= accounts.dom().remove(name));
    } else {
        assert(renamed.dom() =~= accounts.dom().remove(name).insert(new_name));
    }
}

/// Changing a username keeps the password, and changing a password keeps the
/// username.
pub proof fn law_updates_keep_the_other_field(
    accounts: Map<Seq<char>, (Seq<char>, Seq<char>)>,
    name: Seq<char>,
    value: Seq<char>,
)
    requires
        accounts.contains_key(name),
    ensures
        accounts.insert(name, (value, accounts[name].1))[name].1 == accounts[name].1,
        accounts.insert(name, (accounts[name].0, value))[name].0 == accounts[name].0,
        accounts.insert(name, (value, accounts[name].1)).dom() == accounts.dom(),
        accounts.insert(name, (accounts[name].0, value)).dom() == accounts.dom(),
{
    assert(accounts.insert(name, (value, accounts[name].1)).dom() =~= accounts.dom());
    assert(accounts.insert(name, (accounts[name].0, value)).dom() =~= accounts.dom());
}

// ---------------------------------------------------------------------------
// Listing
// ---------------------------------------------------------------------------

/// `str::replace`: where the whole text is the pattern, the result is the
/// replacement. What it gives otherwise is left unsaid.
#[verifier::external_body]
fn replace_text(s: &str, from: &str, to: &str) -> (res: String)
    ensures
        s@ == from@ ==> res@ == to@,
{
    s.replace(from, to)
}

/// A password as the listing shows it: the password with every occurrence of
/// itself replaced by eight stars.
pub fn mask_password(password: &str) -> (res: String)
    ensures
        res@ == "********"@,
{
    replace_text(password, password, "********")
}

/// One line of the listing of all services.
pub struct ServiceLine {
    pub service: String,
    pub username: String,
    pub masked_password: String,
}

/// What a line shows: the service, the username and the masked password.
pub open spec fn line_view(line: ServiceLine) -> (Seq<char>, Seq<char>, Seq<char>) {
    (line.service@, line.username@, line.masked_password@)
}

/// `lines` list every stored service exactly once, each with its username
/// and the password masked.
pub open spec fn is_listing_of(
    lines: Seq<ServiceLine>,
    accounts: Map<Seq<char>, (Seq<char>, Seq<char>)>,
) -> bool {
    &&& forall|i: int|
        0 <= i < lines.len() ==> {
            &&& accounts.contains_key((#[trigger] lines[i]).service@)
            &&& lines[i].username@ == accounts[lines[i].service@].0
            &&& lines[i].masked_password@ == "********"@
        }
    &&& forall|i: int, j: int|
        0 <= i < lines.len() && 0 <= j < lines.len() && i != j ==> (#[trigger] lines[i]).service@
            != (#[trigger] lines[j]).service@
    &&& forall|k: Seq<char>|
        accounts.contains_key(k) ==> exists|i: int|
            0 <= i < lines.len() && (#[trigger] lines[i]).service@ == k
}

/// Two listings of accounts with the same services and usernames show the
/// same lines, each once, whatever the passwords are; only the order may
/// differ.
pub proof fn law_listing_shows_no_password(
    lines1: Seq<ServiceLine>,
    accounts1: Map<Seq<char>, (Seq<char>, Seq<char>)>,
    lines2: Seq<ServiceLine>,
    accounts2: Map<Seq<char>, (Seq<char>, Seq<char>)>,
)
    requires
        is_listing_of(lines1, accounts1),
        is_listing_of(lines2, accounts2),
        accounts1.dom() == accounts2.dom(),
        forall|k: Seq<char>| #[trigger] accounts1.contains_key(k) ==> accounts1[k].0 == accounts2[k].0,
    ensures
        lines1.map_values(|l: ServiceLine| line_view(l)).to_set() == lines2.map_values(
            |l: ServiceLine| line_view(l),
        ).to_set(),
        lines1.map_values(|l: ServiceLine| line_view(l)).no_duplicates(),
        lines2.map_values(|l: ServiceLine| line_view(l)).no_duplicates(),
        lines1.len() == lines2.len(),
{
    let v1 = lines1.map_values(|l: ServiceLine| line_view(l));
    let v2 = lines2.map_values(|l: ServiceLine| line_view(l));
    assert forall|i: int, j: int| 0 <= i < v1.len() && 0 <= j < v1.len() && i != j implies v1[i]
        != v1[j] by {
        assert(lines1[i].service@ != lines1[j].service@);
    }
    assert forall|i: int, j: int| 0 <= i < v2.len() && 0 <= j < v2.len() && i != j implies v2[i]
        != v2[j] by {
        assert(lines2[i].service@ != lines2[j].service@);
    }
    assert forall|t: (Seq<char>, Seq<char>, Seq<char>)| v1.contains(t) implies v2.contains(t) by {
        let i = choose|i: int| 0 <= i < v1.len() && v1[i] == t;
        assert(lines1[i].service@ == t.0);
        assert(accounts2.contains_key(t.0));
        let j = choose|j: int| 0 <= j < lines2.len() && (#[trigger] lines2[j]).service@ == t.0;
        assert(v2[j] == t);
    }
    assert forall|t: (Seq<char>, Seq<char>, Seq<char>)| v2.contains(t) implies v1.contains(t) by {
        let i = choose|i: int| 0 <= i < v2.len() && v2[i] == t;
        assert(lines2[i].service@ == t.0);
        assert(accounts1.contains_key(t.0));
        let j = choose|j: int| 0 <= j < lines1.len() && (#[trigger] lines1[j]).service@ == t.0;
        assert(v1[j] == t);
    }
    assert(v1.to_set() =~= v2.to_set());
    v1.unique_seq_to_set();
    v2.unique_seq_to_set();
}

/// Every stored service with its username and masked password, in the
/// order in which the services are stored.
pub fn list_services(vault: &Vault) -> (res: Vec<ServiceLine>)
    ensures
        res@.len() == vault.accounts.names().len(),
        forall|i: int|
            0 <= i < res@.len() ==> {
                &&& (#[trigger] res@[i]).service@ == vault.accounts.names()[i]
                &&& res@[i].username@ == vault.accounts@[vault.accounts.names()[i]].0
                &&& res@[i].masked_password@ == "********"@
            },
        vault.accounts.is_consistent(),
        is_listing_of(res@, vault.accounts@),
{
    let mut res: Vec<ServiceLine> = Vec::new();
    let n = vault.accounts.len();
    let mut i: usize = 0;
    while i < n
        invariant
            n == vault.accounts.names().len(),
            i <= n,
            res@.len() == i,
            forall|j: int|
                0 <= j < i ==> {
                    &&& (#[trigger] res@[j]).service@ == vault.accounts.names()[j]
                    &&& res@[j].username@ == vault.accounts@[vault.accounts.names()[j]].0
                    &&& res@[j].masked_password@ == "********"@
                },
        decreases n - i,
    {
        let (service, credential) = vault.accounts.entry(i);
        res.push(
            ServiceLine {
                service: service.clone(),
                username: credential.username.clone(),
                masked_password: mask_password(credential.password_plana.as_str()),
            },
        );
        i = i + 1;
    }
    proof {
        let names = vault.accounts.names();
        assert forall|i: int, j: int|
            0 <= i < res@.len() && 0 <= j < res@.len() && i != j implies (#[trigger] res@[i]).service@
                != (#[trigger] res@[j]).service@ by {
            assert(names[i] != names[j]);
        }
        assert forall|k: Seq<char>|
            vault.accounts@.contains_key(k) implies exists|i: int|
                0 <= i < res@.len() && (#[trigger] res@[i]).service@ == k by {
            assert(names.to_set().contains(k));
            let i = choose|i: int| 0 <= i < names.len() && names[i] == k;
            assert(res@[i].service@ == k);
        }
    }
    res
}

/// The edit prompt quits on "q" and on "quit", and otherwise takes exactly
/// the words its help lists; everything else is invalid.
pub proof fn law_edit_words(word: &str, res: EditCommand)
    requires
        call_ensures(parse_edit_command, (word,), res),
    ensures
        res == EditCommand::Quit <==> (word@ == "q"@ || word@ == "quit"@),
        res == EditCommand::ServiceName <==> word@ == "service_name"@,
        res == EditCommand::Username <==> word@ == "username"@,
        res == EditCommand::Password <==> word@ == "password"@,
        res == EditCommand::Help <==> word@ == "help"@,
{
    reveal_strlit("q");
    reveal_strlit("quit");
    reveal_strlit("service_name");
    reveal_strlit("username");
    reveal_strlit("password");
    reveal_strlit("help");
    assert("q"@.len() == 1 && "quit"@.len() == 4 && "help"@.len() == 4);
    assert("service_name"@.len() == 12 && "username"@.len() == 8 && "password"@.len() == 8);
    assert("quit"@[0] != "help"@[0]);
    assert("username"@[0] != "password"@[0]);
}

/// The listing names every stored service exactly once, each with its own
/// username, and never shows a password: every password is eight stars.
pub proof fn law_listing_covers_each_service_once(vault: &Vault, res: Vec<ServiceLine>)
    requires
        call_ensures(list_services, (vault,), res),
    ensures
        forall|i: int|
            0 <= i < res@.len() ==> {
                &&& vault.accounts@.contains_key((#[trigger] res@[i]).service@)
                &&& res@[i].username@ == vault.accounts@[res@[i].service@].0
                &&& res@[i].masked_password@ == "********"@
            },
        forall|i: int, j: int|
            0 <= i < res@.len() && 0 <= j < res@.len() && i != j ==> (#[trigger] res@[i]).service@
                != (#[trigger] res@[j]).service@,
        forall|k: Seq<char>|
            vault.accounts@.contains_key(k) ==> exists|i: int|
                0 <= i < res@.len() && (#[trigger] res@[i]).service@ == k,
        res@.len() == vault.accounts@.dom().len(),
{
}

} // verus!
