use crate::error::CliError;
use std::path::PathBuf;
use vstd::prelude::*;
use vstd::string::*;

verus! {

/// Temporary credentials as the identity service hands them out: a session
/// token obtained with an MFA code, or the credentials of an assumed role.
#[derive(Debug)]
pub struct Credentials {
    pub access_key_id: String,
    pub secret_access_key: String,
    pub session_token: String,
    /// An RFC 3339 timestamp.
    pub expiration: String,
}

pub struct CredentialsView {
    pub access_key_id: Seq<char>,
    pub secret_access_key: Seq<char>,
    pub session_token: Seq<char>,
    pub expiration: Seq<char>,
}

impl View for Credentials {
    type V = CredentialsView;

    open spec fn view(&self) -> CredentialsView {
        CredentialsView {
            access_key_id: self.access_key_id@,
            secret_access_key: self.secret_access_key@,
            session_token: self.session_token@,
            expiration: self.expiration@,
        }
    }
}

impl Clone for Credentials {
    fn clone(&self) -> (res: Credentials)
        ensures
            res == *self,
    {
        Credentials {
            access_key_id: self.access_key_id.clone(),
            secret_access_key: self.secret_access_key.clone(),
            session_token: self.session_token.clone(),
            expiration: self.expiration.clone(),
        }
    }
}

/// The view of an optional value that has a view.
pub open spec fn view_of<T: View>(value: Option<T>) -> Option<T::V> {
    match value {
        Some(inner) => Some(inner@),
        None => None,
    }
}

/// The mapping that a list of `(alias, role identifier)` pairs stands for:
/// where an alias occurs more than once, its last pair counts.
pub open spec fn roles_of(entries: Seq<(String, String)>) -> Map<Seq<char>, Seq<char>>
    decreases entries.len(),
{
    if entries.len() == 0 {
        Map::empty()
    } else {
        roles_of(entries.drop_last()).insert(entries.last().0@, entries.last().1@)
    }
}

/// Some pair of the list is for `alias`.
pub open spec fn has_alias(entries: Seq<(String, String)>, alias: Seq<char>) -> bool {
    exists|i: int| 0 <= i < entries.len() && (#[trigger] entries[i]).0@ == alias
}

/// No alias occurs twice in the list.
pub open spec fn distinct_aliases(entries: Seq<(String, String)>) -> bool {
    forall|i: int, j: int|
        0 <= i < j < entries.len() ==> (#[trigger] entries[i]).0@ != (#[trigger] entries[j]).0@
}

/// A pair at the end of the list counts over the pairs before it.
pub proof fn lemma_roles_of_push(entries: Seq<(String, String)>, entry: (String, String))
    ensures
        roles_of(entries.push(entry)) == roles_of(entries).insert(entry.0@, entry.1@),
{
    assert(entries.push(entry).drop_last() =~= entries);
}

/// The aliases of the mapping are the aliases of the list.
pub proof fn lemma_roles_of_domain(entries: Seq<(String, String)>, alias: Seq<char>)
    ensures
        roles_of(entries).contains_key(alias) <==> has_alias(entries, alias),
    decreases entries.len(),
{
    if entries.len() > 0 {
        let front = entries.drop_last();
        lemma_roles_of_domain(front, alias);
        if has_alias(entries, alias) {
            let i = choose|i: int| 0 <= i < entries.len() && (#[trigger] entries[i]).0@ == alias;
            if i < entries.len() - 1 {
                assert(front[i].0@ == alias);
            }
        }
        if has_alias(front, alias) {
            let i = choose|i: int| 0 <= i < front.len() && (#[trigger] front[i]).0@ == alias;
            assert(entries[i].0@ == alias);
        }
        if entries.last().0@ == alias {
            assert(entries[entries.len() - 1].0@ == alias);
        }
    }
}

/// Where no alias occurs twice, each pair of the list is a pair of the mapping.
pub proof fn lemma_roles_of_entry(entries: Seq<(String, String)>, i: int)
    requires
        distinct_aliases(entries),
        0 <= i < entries.len(),
    ensures
        roles_of(entries).contains_key(entries[i].0@),
        roles_of(entries)[entries[i].0@] == entries[i].1@,
    decreases entries.len(),
{
    let front = entries.drop_last();
    if i < entries.len() - 1 {
        assert(distinct_aliases(front)) by {
            assert forall|a: int, b: int| 0 <= a < b < front.len() implies (#[trigger] front[a]).0@
                != (#[trigger] front[b]).0@ by {
                assert(entries[a].0@ != entries[b].0@);
            }
        }
        lemma_roles_of_entry(front, i);
        assert(entries[i].0@ != entries[entries.len() - 1].0@);
    }
}

/// Replacing the identifier of a pair leaves every other alias as it was.
pub proof fn lemma_roles_of_update(entries: Seq<(String, String)>, i: int, entry: (String, String))
    requires
        distinct_aliases(entries),
        0 <= i < entries.len(),
        entry.0@ == entries[i].0@,
    ensures
        distinct_aliases(entries.update(i, entry)),
        roles_of(entries.update(i, entry)) == roles_of(entries).insert(entry.0@, entry.1@),
{
    let updated = entries.update(i, entry);
    assert forall|a: int, b: int| 0 <= a < b < updated.len() implies (#[trigger] updated[a]).0@
        != (#[trigger] updated[b]).0@ by {
        assert(updated[a].0@ == entries[a].0@);
        assert(updated[b].0@ == entries[b].0@);
    }
    let expected = roles_of(entries).insert(entry.0@, entry.1@);
    assert forall|alias: Seq<char>| roles_of(updated).contains_key(alias) <==> expected.contains_key(
        alias,
    ) by {
        lemma_roles_of_domain(updated, alias);
        lemma_roles_of_domain(entries, alias);
        if has_alias(updated, alias) {
            let j = choose|j: int| 0 <= j < updated.len() && (#[trigger] updated[j]).0@ == alias;
            assert(entries[j].0@ == alias);
        }
        if has_alias(entries, alias) {
            let j = choose|j: int| 0 <= j < entries.len() && (#[trigger] entries[j]).0@ == alias;
            assert(updated[j].0@ == alias);
        }
    }
    assert forall|alias: Seq<char>| roles_of(updated).contains_key(alias) implies roles_of(
        updated,
    )[alias] == expected[alias] by {
        lemma_roles_of_domain(updated, alias);
        let j = choose|j: int| 0 <= j < updated.len() && (#[trigger] updated[j]).0@ == alias;
        lemma_roles_of_entry(updated, j);
        if j != i {
            lemma_roles_of_entry(entries, j);
            assert(entries[j].0@ != entries[i].0@);
        }
    }
    assert(roles_of(updated) =~= expected);
}

/// Taking a pair out of the list takes its alias out of the mapping.
pub proof fn lemma_roles_of_remove(entries: Seq<(String, String)>, i: int)
    requires
        distinct_aliases(entries),
        0 <= i < entries.len(),
    ensures
        distinct_aliases(entries.remove(i)),
        roles_of(entries.remove(i)) == roles_of(entries).remove(entries[i].0@),
{
    let rest = entries.remove(i);
    let gone = entries[i].0@;
    assert forall|a: int, b: int| 0 <= a < b < rest.len() implies (#[trigger] rest[a]).0@ != (
    #[trigger] rest[b]).0@ by {
        let a0 = if a < i { a } else { a + 1 };
        let b0 = if b < i { b } else { b + 1 };
        assert(rest[a] == entries[a0]);
        assert(rest[b] == entries[b0]);
        assert(entries[a0].0@ != entries[b0].0@);
    }
    let expected = roles_of(entries).remove(gone);
    assert forall|alias: Seq<char>| roles_of(rest).contains_key(alias) <==> expected.contains_key(
        alias,
    ) by {
        lemma_roles_of_domain(rest, alias);
        lemma_roles_of_domain(entries, alias);
        if has_alias(rest, alias) {
            let j = choose|j: int| 0 <= j < rest.len() && (#[trigger] rest[j]).0@ == alias;
            let j0 = if j < i { j } else { j + 1 };
            assert(rest[j] == entries[j0]);
            assert(entries[j0].0@ == alias);
            if j0 < i {
                assert(entries[j0].0@ != entries[i].0@);
            } else {
                assert(entries[i].0@ != entries[j0].0@);
            }
        }
        if has_alias(entries, alias) && alias != gone {
            let j = choose|j: int| 0 <= j < entries.len() && (#[trigger] entries[j]).0@ == alias;
            let j1 = if j < i { j } else { j - 1 };
            assert(rest[j1] == entries[j]);
            assert(rest[j1].0@ == alias);
        }
    }
    assert forall|alias: Seq<char>| roles_of(rest).contains_key(alias) implies roles_of(rest)[alias]
        == expected[alias] by {
        lemma_roles_of_domain(rest, alias);
        let j = choose|j: int| 0 <= j < rest.len() && (#[trigger] rest[j]).0@ == alias;
        let j0 = if j < i { j } else { j + 1 };
        assert(rest[j] == entries[j0]);
        lemma_roles_of_entry(rest, j);
        lemma_roles_of_entry(entries, j0);
    }
    assert(roles_of(rest) =~= expected);
}

/// Where the pair for `alias` stands in the list, if the list has one.
fn position_of(entries: &Vec<(String, String)>, alias: &String) -> (found: Option<usize>)
    ensures
        match found {
            Some(i) => i < entries.len() && entries[i as int].0@ == alias@,
            None => !has_alias(entries@, alias@),
        },
{
    let mut i: usize = 0;
    while i < entries.len()
        invariant
            i <= entries.len(),
            forall|j: int| 0 <= j < i ==> (#[trigger] entries@[j]).0@ != alias@,
        decreases entries.len() - i,
    {
        if entries[i].0 == *alias {
            return Some(i);
        }
        i += 1;
    }
    None
}

/// Maps `alias` to `arn`, in place of what it was mapped to before.
fn put_role(entries: &mut Vec<(String, String)>, alias: String, arn: String)
    requires
        distinct_aliases(old(entries)@),
    ensures
        distinct_aliases(final(entries)@),
        roles_of(final(entries)@) == roles_of(old(entries)@).insert(alias@, arn@),
{
    match position_of(entries, &alias) {
        Some(i) => {
            proof {
                lemma_roles_of_update(entries@, i as int, (alias, arn));
            }
            entries.set(i, (alias, arn));
        },
        None => {
            proof {
                lemma_roles_of_push(entries@, (alias, arn));
            }
            entries.push((alias, arn));
        },
    }
}

/// Takes `alias` out of the mapping, if it is there.
fn drop_role(entries: &mut Vec<(String, String)>, alias: &String)
    requires
        distinct_aliases(old(entries)@),
    ensures
        distinct_aliases(final(entries)@),
        roles_of(final(entries)@) == roles_of(old(entries)@).remove(alias@),
{
    match position_of(entries, alias) {
        Some(i) => {
            proof {
                lemma_roles_of_remove(entries@, i as int);
            }
            entries.remove(i);
        },
        None => {
            proof {
                lemma_roles_of_domain(entries@, alias@);
                assert(roles_of(entries@).remove(alias@) =~= roles_of(entries@));
            }
        },
    }
}

/// The configuration as it is written down: one value for each key of the
/// configuration file. In `roles`, the last pair of an alias counts.
#[derive(Debug)]
pub struct Config {
    pub mfa_serial_number: String,
    pub session_name: String,
    pub region: Option<String>,
    pub roles: Vec<(String, String)>,
    pub session_token: Option<Credentials>,
}

/// What a configuration says.
#[verifier::ext_equal]
pub struct ConfigView {
    pub mfa_serial_number: Seq<char>,
    pub session_name: Seq<char>,
    pub region: Option<Seq<char>>,
    pub roles: Map<Seq<char>, Seq<char>>,
    pub session_token: Option<CredentialsView>,
}

impl ConfigView {
    /// The configuration of an installation that has stored none yet.
    pub open spec fn initial() -> ConfigView {
        ConfigView {
            mfa_serial_number: Seq::empty(),
            session_name: "default"@,
            region: Some("us-east-1"@),
            roles: Map::empty(),
            session_token: None,
        }
    }

    /// The region to talk to: the stored one, or `us-east-1` where none or an
    /// empty one is stored.
    pub open spec fn region_or_default(self) -> Seq<char> {
        match self.region {
            Some(region) => if region.len() > 0 {
                region
            } else {
                "us-east-1"@
            },
            None => "us-east-1"@,
        }
    }

    /// The role identifier that `alias` stands for.
    pub open spec fn role(self, alias: Seq<char>) -> Option<Seq<char>> {
        if self.roles.contains_key(alias) {
            Some(self.roles[alias])
        } else {
            None
        }
    }

    pub open spec fn with_mfa(self, serial_number: Seq<char>) -> ConfigView {
        ConfigView { mfa_serial_number: serial_number, ..self }
    }

    pub open spec fn with_session_name(self, session_name: Seq<char>) -> ConfigView {
        ConfigView { session_name, ..self }
    }

    pub open spec fn with_region(self, region: Seq<char>) -> ConfigView {
        ConfigView { region: Some(region), ..self }
    }

    pub open spec fn with_session_token(self, credentials: CredentialsView) -> ConfigView {
        ConfigView { session_token: Some(credentials), ..self }
    }

    pub open spec fn with_role(self, alias: Seq<char>, arn: Seq<char>) -> ConfigView {
        ConfigView { roles: self.roles.insert(alias, arn), ..self }
    }

    pub open spec fn without_role(self, alias: Seq<char>) -> ConfigView {
        ConfigView { roles: self.roles.remove(alias), ..self }
    }
}

impl View for Config {
    type V = ConfigView;

    open spec fn view(&self) -> ConfigView {
        ConfigView {
            mfa_serial_number: self.mfa_serial_number@,
            session_name: self.session_name@,
            region: view_of(self.region),
            roles: roles_of(self.roles@),
            session_token: view_of(self.session_token),
        }
    }
}

/// std's `PathBuf`, carried as it is: nothing is known of what it holds.
#[verifier::external_type_specification]
#[verifier::external_body]
pub struct ExPathBuf(PathBuf);

/// The path that std's `PathBuf::push` makes of `base` when `part` is pushed
/// onto it.
pub uninterp spec fn path_with(base: PathBuf, part: Seq<char>) -> PathBuf;

/// The file `config` in the directory `program_name` of the directory `base`.
pub open spec fn config_file_under(base: PathBuf, program_name: Seq<char>) -> PathBuf {
    path_with(path_with(base, program_name), "config"@)
}

/// Calls `dirs::config_dir`: the directory in which the platform keeps the
/// configuration of the user, if the platform and the user's settings name
/// one. Nothing is claimed of the answer.
#[verifier::external_body]
fn platform_config_dir() -> Option<PathBuf> {
    dirs::config_dir()
}

/// Calls std's `PathBuf::push`. The contract gives the path that comes of it
/// a name, and says no more of it.
#[verifier::external_body]
fn push_part(path: &mut PathBuf, part: &str)
    ensures
        *final(path) == path_with(*old(path), part@),
{
    path.push(part)
}

/// What was found where the configuration file is kept.
#[derive(Debug)]
pub enum ConfigFile {
    /// There is no file at the place.
    Missing,
    /// There is a file, and reading it failed.
    Unreadable(std::io::Error),
    /// The file was read, and its text does not have the form of a configuration.
    Malformed(serde_json::Error),
    /// The file was read, and this is what it says.
    Stored(Config),
}

/// The configuration of one invocation.
pub struct CliConfig {
    options: Config,
}

impl View for CliConfig {
    type V = ConfigView;

    closed spec fn view(&self) -> ConfigView {
        self.options@
    }
}

impl CliConfig {
    #[verifier::type_invariant]
    spec fn unique_aliases(self) -> bool {
        distinct_aliases(self.options.roles@)
    }

    /// Where the configuration of the program `program_name` is kept: the
    /// file `config` in the directory `program_name` of the platform's
    /// directory for configuration files. Without such a directory there is
    /// no place for it.
    pub fn construct_path(program_name: &str) -> (res: Result<PathBuf, CliError>)
        ensures
            match res {
                Ok(path) => exists|base: PathBuf|
                    path == #[trigger] config_file_under(base, program_name@),
                Err(err) => err is ConfigDirectoryNotAvailable,
            },
    {
        let directory = platform_config_dir();
        let ghost found = directory;
        let res = Self::config_path(directory, program_name);
        proof {
            if found is Some {
                assert(res matches Ok(path) && path == config_file_under(
                    found->0,
                    program_name@,
                ));
            }
        }
        res
    }

    /// The file `config` in the directory `program_name` of `directory`, the
    /// platform's directory for configuration files.
    pub fn config_path(directory: Option<PathBuf>, program_name: &str) -> (res: Result<
        PathBuf,
        CliError,
    >)
        ensures
            match directory {
                None => res matches Err(CliError::ConfigDirectoryNotAvailable()),
                Some(base) => res matches Ok(path) && path == config_file_under(
                    base,
                    program_name@,
                ),
            },
    {
        match directory {
            None => Err(CliError::ConfigDirectoryNotAvailable()),
            Some(base) => {
                let mut path = base;
                push_part(&mut path, program_name);
                push_part(&mut path, "config");
                Ok(path)
            },
        }
    }

    /// The configuration to start from, or the error that the state of the
    /// configuration file amounts to. A missing file stands for the initial
    /// configuration.
    pub fn load(found: ConfigFile) -> (res: Result<CliConfig, CliError>)
        ensures
            match found {
                ConfigFile::Missing => res matches Ok(config) && config@ == ConfigView::initial(),
                ConfigFile::Unreadable(err) => res matches Err(CliError::Io(e)) && e == err,
                ConfigFile::Malformed(err) => res matches Err(CliError::Serde(e)) && e == err,
                ConfigFile::Stored(stored) => res matches Ok(config) && config@ == stored@,
            },
    {
        match found {
            ConfigFile::Missing => {
                let options = Config {
                    mfa_serial_number: String::new(),
                    session_name: "default".to_string(),
                    region: Some("us-east-1".to_string()),
                    roles: Vec::new(),
                    session_token: None,
                };
                Ok(CliConfig { options })
            },
            ConfigFile::Unreadable(err) => Err(CliError::Io(err)),
            ConfigFile::Malformed(err) => Err(CliError::Serde(err)),
            ConfigFile::Stored(stored) => {
                let Config { mfa_serial_number, session_name, region, roles, session_token } =
                    stored;
                let mut unique: Vec<(String, String)> = Vec::new();
                let mut i: usize = 0;
                while i < roles.len()
                    invariant
                        i <= roles.len(),
                        distinct_aliases(unique@),
                        roles_of(unique@) == roles_of(roles@.take(i as int)),
                    decreases roles.len() - i,
                {
                    let alias = roles[i].0.clone();
                    let arn = roles[i].1.clone();
                    proof {
                        assert(roles@.take(i + 1) =~= roles@.take(i as int).push(roles@[i as int]));
                        lemma_roles_of_push(roles@.take(i as int), roles@[i as int]);
                    }
                    put_role(&mut unique, alias, arn);
                    i += 1;
                }
                proof {
                    assert(roles@.take(roles.len() as int) =~= roles@);
                }
                let options = Config {
                    mfa_serial_number,
                    session_name,
                    region,
                    roles: unique,
                    session_token,
                };
                Ok(CliConfig { options })
            },
        }
    }

    /// The whole configuration, as it is to be written down.
    pub fn options(&self) -> (stored: Config)
        ensures
            stored@ == self@,
            distinct_aliases(stored.roles@),
    {
        proof {
            use_type_invariant(self);
        }
        Config {
            mfa_serial_number: self.options.mfa_serial_number.clone(),
            session_name: self.options.session_name.clone(),
            region: self.options.region.clone(),
            roles: self.get_roles(),
            session_token: self.options.session_token.clone(),
        }
    }

    pub fn set_mfa(&mut self, serial_number: &str)
        ensures
            final(self)@ == old(self)@.with_mfa(serial_number@),
    {
        proof {
            use_type_invariant(&*self);
        }
        self.options.mfa_serial_number = serial_number.to_string();
    }

    pub fn get_mfa(&self) -> (serial_number: String)
        ensures
            serial_number@ == self@.mfa_serial_number,
    {
        self.options.mfa_serial_number.clone()
    }

    pub fn set_session_name(&mut self, session_name: &str)
        ensures
            final(self)@ == old(self)@.with_session_name(session_name@),
    {
        proof {
            use_type_invariant(&*self);
        }
        self.options.session_name = session_name.to_string();
    }

    pub fn get_session_name(&self) -> (session_name: String)
        ensures
            session_name@ == self@.session_name,
    {
        self.options.session_name.clone()
    }

    /// Puts `credentials` in the place of the session token that was kept.
    pub fn set_session_token(&mut self, credentials: Credentials)
        ensures
            final(self)@ == old(self)@.with_session_token(credentials@),
    {
        proof {
            use_type_invariant(&*self);
        }
        self.options.session_token = Some(credentials);
    }

    pub fn get_session_token(&self) -> (token: Option<Credentials>)
        ensures
            view_of(token) == self@.session_token,
    {
        self.options.session_token.clone()
    }

    /// Lets `name` stand for `arn`, whatever it stood for before.
    pub fn add_role(&mut self, name: &str, arn: &str)
        ensures
            final(self)@ == old(self)@.with_role(name@, arn@),
    {
        proof {
            use_type_invariant(&*self);
        }
        let mut roles: Vec<(String, String)> = Vec::new();
        std::mem::swap(&mut self.options.roles, &mut roles);
        put_role(&mut roles, name.to_string(), arn.to_string());
        self.options.roles = roles;
    }

    /// Every alias with its role identifier, each alias once.
    pub fn get_roles(&self) -> (roles: Vec<(String, String)>)
        ensures
            distinct_aliases(roles@),
            roles_of(roles@) == self@.roles,
    {
        proof {
            use_type_invariant(self);
        }
        let mut roles: Vec<(String, String)> = Vec::new();
        let mut i: usize = 0;
        while i < self.options.roles.len()
            invariant
                i <= self.options.roles.len(),
                roles@ == self.options.roles@.take(i as int),
            decreases self.options.roles.len() - i,
        {
            let alias = self.options.roles[i].0.clone();
            let arn = self.options.roles[i].1.clone();
            roles.push((alias, arn));
            proof {
                assert(roles@ =~= self.options.roles@.take(i + 1));
            }
            i += 1;
        }
        proof {
            assert(self.options.roles@.take(self.options.roles.len() as int) =~= self.options.roles@);
        }
        roles
    }

    /// Forgets `name`; nothing changes where it stood for nothing.
    pub fn remove_role(&mut self, name: &str)
        ensures
            final(self)@ == old(self)@.without_role(name@),
    {
        proof {
            use_type_invariant(&*self);
        }
        let alias = name.to_string();
        let mut roles: Vec<(String, String)> = Vec::new();
        std::mem::swap(&mut self.options.roles, &mut roles);
        drop_role(&mut roles, &alias);
        self.options.roles = roles;
    }

    pub fn get_role_arn(&self, name: &str) -> (arn: Option<&String>)
        ensures
            view_of(arn) == self@.role(name@),
    {
        proof {
            use_type_invariant(self);
            lemma_roles_of_domain(self.options.roles@, name@);
        }
        let alias = name.to_string();
        match position_of(&self.options.roles, &alias) {
            Some(i) => {
                proof {
                    lemma_roles_of_entry(self.options.roles@, i as int);
                }
                Some(&self.options.roles[i].1)
            },
            None => None,
        }
    }

    /// The region to talk to: never an empty name.
    pub fn get_region(&self) -> (region: String)
        ensures
            region@ == self@.region_or_default(),
            region@.len() > 0,
    {
        proof {
            reveal_strlit("us-east-1");
        }
        match &self.options.region {
            Some(region) => {
                if region.as_str().is_empty() {
                    "us-east-1".to_string()
                } else {
                    region.clone()
                }
            },
            None => "us-east-1".to_string(),
        }
    }

    pub fn set_region(&mut self, region: &str)
        ensures
            final(self)@ == old(self)@.with_region(region@),
    {
        proof {
            use_type_invariant(&*self);
        }
        self.options.region = Some(region.to_string());
    }
}

/// Right after an alias is added, it stands for the identifier it was added
/// with; right after it is removed, it stands for nothing.
pub proof fn lemma_role_after_add_and_remove(config: ConfigView, alias: Seq<char>, arn: Seq<char>)
    ensures
        config.with_role(alias, arn).role(alias) == Some(arn),
        config.without_role(alias).role(alias) is None,
{
}

/// Adding or removing an alias leaves what every other alias stands for.
pub proof fn lemma_other_roles_stay(
    config: ConfigView,
    alias: Seq<char>,
    arn: Seq<char>,
    other: Seq<char>,
)
    requires
        other != alias,
    ensures
        config.with_role(alias, arn).role(other) == config.role(other),
        config.without_role(alias).role(other) == config.role(other),
{
}

/// The region to talk to is never the empty name: it is `us-east-1` where no
/// region is stored, and a region that was set, unless it was set to the
/// empty name, is the region to talk to.
pub proof fn lemma_region_after_set(config: ConfigView, region: Seq<char>)
    ensures
        config.region_or_default().len() > 0,
        config.region is None ==> config.region_or_default() == "us-east-1"@,
        region.len() > 0 ==> config.with_region(region).region_or_default() == region,
{
    reveal_strlit("us-east-1");
}

} // verus!
