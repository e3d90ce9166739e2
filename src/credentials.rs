use vstd::prelude::*;

use crate::home::{expand_home, home_marked};
use crate::properties::{map_of, PropertyMap};
use crate::text::{cut, cut_at, lines_of, same_text, split_lines, trim, trimmed, views};

verus! {

/// The four values that a storage client needs.
#[derive(Debug)]
pub struct AwsCredentials {
    pub access_key_id: String,
    pub secret_access_key: String,
    pub session_token: String,
    pub region: String,
}

impl View for AwsCredentials {
    type V = (Seq<char>, Seq<char>, Seq<char>, Seq<char>);

    open spec fn view(&self) -> Self::V {
        (self.access_key_id@, self.secret_access_key@, self.session_token@, self.region@)
    }
}

/// Credential values taken from the process environment, one per variable;
/// `None` where the variable is not set.
#[derive(Debug)]
pub struct EnvCredentials {
    pub access_key_id: Option<String>,
    pub secret_access_key: Option<String>,
    pub session_token: Option<String>,
    pub region: Option<String>,
}

/// What credential resolution reads: the text of the credentials file, or
/// `None` when it could not be read, and the environment's values.
#[derive(Debug)]
pub struct CredentialSources {
    pub file: Option<String>,
    pub env: EnvCredentials,
}

/// Why credentials could not be resolved.
#[derive(Debug, Clone, Copy, PartialEq, Eq, Structural)]
pub enum CredentialsError {
    /// The provider named is not one this library knows.
    InvalidProvider,
    /// The credentials file could not be read.
    FileNotFound,
    /// One of the four values is in neither the file nor the environment.
    MissingCredentials,
}

/// The account of a credentials error.
pub open spec fn credentials_message(e: CredentialsError) -> Seq<char> {
    match e {
        CredentialsError::InvalidProvider => "Invalid Execution type"@,
        CredentialsError::FileNotFound => "File does not exist"@,
        CredentialsError::MissingCredentials => "Missing aws credentials"@,
    }
}

impl CredentialsError {
    /// A human-readable account of the error.
    pub fn message(&self) -> (r: String)
        ensures
            r@ == credentials_message(*self),
    {
        match self {
            CredentialsError::InvalidProvider => "Invalid Execution type".to_owned(),
            CredentialsError::FileNotFound => "File does not exist".to_owned(),
            CredentialsError::MissingCredentials => "Missing aws credentials".to_owned(),
        }
    }
}

pub open spec fn access_key_id_key() -> Seq<char> {
    "aws_access_key_id"@
}

pub open spec fn secret_access_key_key() -> Seq<char> {
    "aws_secret_access_key"@
}

pub open spec fn session_token_key() -> Seq<char> {
    "aws_session_token"@
}

pub open spec fn region_key() -> Seq<char> {
    "region"@
}

/// True for the four property names that make up a credential set.
pub open spec fn is_credential_key(k: Seq<char>) -> bool {
    k == access_key_id_key() || k == secret_access_key_key() || k == session_token_key() || k
        == region_key()
}

/// The header line that opens the section of `profile`.
pub open spec fn header_of(profile: Seq<char>) -> Seq<char> {
    seq!['['] + profile + seq![']']
}

/// True for a line that, once trimmed, is enclosed in square brackets.
pub open spec fn is_header(line: Seq<char>) -> bool {
    let t = trim(line);
    t.len() >= 2 && t[0] == '[' && t.last() == ']'
}

/// Whether the last of `lines` lies in the section of `profile`: the
/// profile's own header opens it, any other header closes it.
pub open spec fn in_section(lines: Seq<Seq<char>>, profile: Seq<char>) -> bool
    decreases lines.len(),
{
    if lines.len() == 0 {
        false
    } else if trim(lines.last()) == header_of(profile) {
        true
    } else if is_header(lines.last()) {
        false
    } else {
        in_section(lines.drop_last(), profile)
    }
}

/// The trimmed key and value of a line split at its first `=`.
pub open spec fn property_of(line: Seq<char>) -> Option<(Seq<char>, Seq<char>)> {
    match cut(trim(line), '=') {
        Some(parts) => Some((trim(parts.0), trim(parts.1))),
        None => None,
    }
}

/// The properties that the section of `profile` sets, in file order.
pub open spec fn section_properties(lines: Seq<Seq<char>>, profile: Seq<char>) -> Seq<
    (Seq<char>, Seq<char>),
>
    decreases lines.len(),
{
    if lines.len() == 0 {
        Seq::empty()
    } else {
        let before = section_properties(lines.drop_last(), profile);
        let line = lines.last();
        if in_section(lines, profile) && line.len() > 0 && property_of(line) is Some {
            before.push(property_of(line)->0)
        } else {
            before
        }
    }
}

/// The properties that a credentials file sets for `profile`; a later line
/// wins over an earlier one with the same key.
pub open spec fn file_credentials(file: Seq<char>, profile: Seq<char>) -> Map<
    Seq<char>,
    Seq<char>,
> {
    map_of(section_properties(lines_of(file), profile))
}

pub open spec fn with_value(
    m: Map<Seq<char>, Seq<char>>,
    k: Seq<char>,
    v: Option<String>,
) -> Map<Seq<char>, Seq<char>> {
    match v {
        Some(s) => m.insert(k, s@),
        None => m,
    }
}

/// The properties that the environment sets.
pub open spec fn env_credentials(env: EnvCredentials) -> Map<Seq<char>, Seq<char>> {
    with_value(
        with_value(
            with_value(
                with_value(Map::empty(), access_key_id_key(), env.access_key_id),
                secret_access_key_key(),
                env.secret_access_key,
            ),
            session_token_key(),
            env.session_token,
        ),
        region_key(),
        env.region,
    )
}

/// The file's properties with the environment's laid over them, key by key.
pub open spec fn merged_credentials(file: Seq<char>, profile: Seq<char>, env: EnvCredentials) -> Map<
    Seq<char>,
    Seq<char>,
> {
    file_credentials(file, profile).union_prefer_right(env_credentials(env))
}

/// A credential set from a map that holds all four keys; otherwise none.
pub open spec fn credentials_of(m: Map<Seq<char>, Seq<char>>) -> Result<
    (Seq<char>, Seq<char>, Seq<char>, Seq<char>),
    CredentialsError,
> {
    if m.contains_key(access_key_id_key()) && m.contains_key(secret_access_key_key())
        && m.contains_key(session_token_key()) && m.contains_key(region_key()) {
        Ok(
            (
                m[access_key_id_key()],
                m[secret_access_key_key()],
                m[session_token_key()],
                m[region_key()],
            ),
        )
    } else {
        Err(CredentialsError::MissingCredentials)
    }
}

/// The outcome of resolving the credentials of `profile`.
pub open spec fn resolve(file: Option<Seq<char>>, profile: Seq<char>, env: EnvCredentials) -> Result<
    (Seq<char>, Seq<char>, Seq<char>, Seq<char>),
    CredentialsError,
> {
    match file {
        None => Err(CredentialsError::FileNotFound),
        Some(f) => credentials_of(merged_credentials(f, profile, env)),
    }
}

/// The result of a resolution, seen through the views of its credentials.
pub open spec fn resolved_view(r: Result<AwsCredentials, CredentialsError>) -> Result<
    (Seq<char>, Seq<char>, Seq<char>, Seq<char>),
    CredentialsError,
> {
    match r {
        Ok(c) => Ok(c@),
        Err(e) => Err(e),
    }
}

pub open spec fn default_profile() -> Seq<char> {
    "default"@
}

pub open spec fn default_credentials_path() -> Seq<char> {
    "~/.aws/credentials"@
}

/// The credentials provider of one vendor: a profile and the file that
/// holds its section.
pub struct Aws {
    profile: String,
    credentials_path: String,
}

impl Aws {
    pub closed spec fn profile_view(&self) -> Seq<char> {
        self.profile@
    }

    pub closed spec fn path_view(&self) -> Seq<char> {
        self.credentials_path@
    }

    /// A provider for `profile`, `"default"` when none is given, reading
    /// `credentials_path`, or the per-user credentials file when none is given.
    pub fn new(profile: Option<&str>, credentials_path: Option<String>) -> (r: Aws)
        ensures
            r.profile_view() == match profile {
                Some(p) => p@,
                None => default_profile(),
            },
            credentials_path is Some ==> r.path_view() == credentials_path->0@,
            credentials_path is None ==> (r.path_view() == default_credentials_path() || exists|
                h: Seq<char>,
            | r.path_view() == h + default_credentials_path().drop_first()),
    {
        let profile = match profile {
            Some(p) => p.to_owned(),
            None => "default".to_owned(),
        };
        let credentials_path = match credentials_path {
            Some(p) => p,
            None => {
                let default_path = "~/.aws/credentials";
                proof {
                    reveal_strlit("~/.aws/credentials");
                }
                assert(home_marked(default_path@));
                expand_home(default_path)
            },
        };
        Aws { profile, credentials_path }
    }

    /// The profile whose section is read.
    pub fn profile(&self) -> (r: &String)
        ensures
            r@ == self.profile_view(),
    {
        &self.profile
    }

    /// The file that holds the profile's section.
    pub fn credentials_path(&self) -> (r: &String)
        ensures
            r@ == self.path_view(),
    {
        &self.credentials_path
    }

    /// The properties that `file` sets in this provider's section.
    pub fn extract_credentials_from_file(&self, file: &str) -> (r: PropertyMap)
        ensures
            r.view() == file_credentials(file@, self.profile_view()),
    {
        let lines = split_lines(file);
        let ghost ls = views(lines@);
        let mut header = "[".to_owned();
        header.append(self.profile.as_str());
        header.append("]");
        assert(header@ =~= header_of(self.profile@)) by {
            reveal_strlit("[");
            reveal_strlit("]");
        }
        let mut parsing = false;
        let mut credentials = PropertyMap::new();
        let mut i: usize = 0;
        assert(ls.take(0) =~= Seq::<Seq<char>>::empty());
        while i < lines.len()
            invariant
                ls == views(lines@),
                ls == lines_of(file@),
                header@ == header_of(self.profile@),
                i <= lines@.len(),
                parsing == in_section(ls.take(i as int), self.profile@),
                credentials.view() == map_of(section_properties(ls.take(i as int), self.profile@)),
            decreases lines.len() - i,
        {
            let line = lines[i].as_str();
            let ghost upto = ls.take(i + 1);
            assert(upto.drop_last() =~= ls.take(i as int));
            assert(upto.last() == line@);
            let t = trimmed(line);
            if same_text(t.as_str(), header.as_str()) {
                parsing = true;
            } else if t.unicode_len() >= 2 && t.as_str().get_char(0) == '[' && t.as_str().get_char(
                t.unicode_len() - 1,
            ) == ']' {
                parsing = false;
            }
            assert(parsing == in_section(upto, self.profile@));
            let ghost before = credentials.view();
            if parsing && line.unicode_len() > 0 {
                match cut_at(t.as_str(), '=') {
                    Some(parts) => {
                        let key = trimmed(parts.0.as_str());
                        let value = trimmed(parts.1.as_str());
                        assert(property_of(line@) == Some((key@, value@)));
                        let ghost sp = section_properties(ls.take(i as int), self.profile@);
                        assert(sp.push((key@, value@)).drop_last() =~= sp);
                        credentials.insert(key, value);
                    },
                    None => {
                        assert(property_of(line@) is None);
                    },
                }
            }
            assert(credentials.view() == map_of(section_properties(upto, self.profile@)));
            i += 1;
        }
        assert(ls.take(lines@.len() as int) =~= ls);
        credentials
    }

    /// The properties that the environment sets.
    pub fn extract_credentials_from_env(&self, env: &EnvCredentials) -> (r: PropertyMap)
        ensures
            r.view() == env_credentials(*env),
    {
        let mut credentials = PropertyMap::new();
        if let Some(v) = &env.access_key_id {
            credentials.insert("aws_access_key_id".to_owned(), v.clone());
        }
        if let Some(v) = &env.secret_access_key {
            credentials.insert("aws_secret_access_key".to_owned(), v.clone());
        }
        if let Some(v) = &env.session_token {
            credentials.insert("aws_session_token".to_owned(), v.clone());
        }
        if let Some(v) = &env.region {
            credentials.insert("region".to_owned(), v.clone());
        }
        assert(credentials.view() =~= env_credentials(*env));
        credentials
    }

    /// Resolves the credential set from the file's text and the environment:
    /// the environment's value wins for each key, and all four keys must be
    /// present.
    pub fn parse(&self, sources: &CredentialSources) -> (r: Result<AwsCredentials, CredentialsError>)
        ensures
            resolved_view(r) == resolve(
                match sources.file {
                    Some(f) => Some(f@),
                    None => None,
                },
                self.profile_view(),
                sources.env,
            ),
    {
        let file = match &sources.file {
            Some(f) => f,
            None => {
                return Err(CredentialsError::FileNotFound);
            },
        };
        let mut credentials = self.extract_credentials_from_file(file.as_str());
        let env_credentials = self.extract_credentials_from_env(&sources.env);
        let ghost from_file = credentials.view();
        let ghost from_env = env_credentials.view();
        let pairs = env_credentials.to_vec();
        let mut i: usize = 0;
        assert(from_env =~= map_of(env_credentials.pairs()));
        assert(env_credentials.pairs().take(0) =~= Seq::<(Seq<char>, Seq<char>)>::empty());
        assert(from_file =~= from_file.union_prefer_right(map_of(Seq::empty())));
        while i < pairs.len()
            invariant
                i <= pairs@.len(),
                pairs@.map_values(|e: (String, String)| (e.0@, e.1@)) == env_credentials.pairs(),
                from_env == map_of(env_credentials.pairs()),
                credentials.view() == from_file.union_prefer_right(
                    map_of(env_credentials.pairs().take(i as int)),
                ),
            decreases pairs.len() - i,
        {
            let ghost e = env_credentials.pairs();
            assert(e.take(i + 1).drop_last() =~= e.take(i as int));
            assert(e.take(i + 1).last() == e[i as int]);
            let key = pairs[i].0.clone();
            let value = pairs[i].1.clone();
            credentials.insert(key, value);
            assert(credentials.view() =~= from_file.union_prefer_right(map_of(e.take(i + 1))));
            i += 1;
        }
        assert(env_credentials.pairs().take(pairs@.len() as int) =~= env_credentials.pairs());
        let access_key_id = credentials.get("aws_access_key_id");
        let secret_access_key = credentials.get("aws_secret_access_key");
        let session_token = credentials.get("aws_session_token");
        let region = credentials.get("region");
        match (access_key_id, secret_access_key, session_token, region) {
            (Some(key_id), Some(secret), Some(token), Some(region)) => Ok(
                AwsCredentials {
                    access_key_id: key_id.clone(),
                    secret_access_key: secret.clone(),
                    session_token: token.clone(),
                    region: region.clone(),
                },
            ),
            _ => Err(CredentialsError::MissingCredentials),
        }
    }
}

/// A provider that resolves credentials of type `T` from what was read for it.
pub trait ParseCredentials<T> {
    fn parse(&self, sources: &CredentialSources) -> Result<T, CredentialsError>;
}

impl ParseCredentials<AwsCredentials> for Aws {
    fn parse(&self, sources: &CredentialSources) -> Result<AwsCredentials, CredentialsError> {
        Aws::parse(self, sources)
    }
}

/// Resolves credentials through the provider named `provider`, of which
/// `"aws"` is the one known: its profile defaults to `"default"`, and
/// `sources` holds what was read from its file and from the environment.
pub fn get_credentials(
    provider: &str,
    profile: Option<&str>,
    credentials_path: Option<String>,
    sources: &CredentialSources,
) -> (r: Result<AwsCredentials, CredentialsError>)
    ensures
        provider@ != "aws"@ ==> resolved_view(r) == Err::<
            (Seq<char>, Seq<char>, Seq<char>, Seq<char>),
            CredentialsError,
        >(CredentialsError::InvalidProvider),
        provider@ == "aws"@ ==> resolved_view(r) == resolve(
            match sources.file {
                Some(f) => Some(f@),
                None => None,
            },
            match profile {
                Some(p) => p@,
                None => default_profile(),
            },
            sources.env,
        ),
{
    if !same_text(provider, "aws") {
        return Err(CredentialsError::InvalidProvider);
    }
    let aws = Aws::new(profile, credentials_path);
    aws.parse(sources)
}

/// When one of the four keys is set neither by the profile's section of the
/// file nor by the environment, resolution fails with missing credentials.
pub proof fn lemma_missing_key_fails(
    file: Seq<char>,
    profile: Seq<char>,
    env: EnvCredentials,
    k: Seq<char>,
)
    requires
        is_credential_key(k),
        !file_credentials(file, profile).contains_key(k),
        !env_credentials(env).contains_key(k),
    ensures
        resolve(Some(file), profile, env) == Err::<
            (Seq<char>, Seq<char>, Seq<char>, Seq<char>),
            CredentialsError,
        >(CredentialsError::MissingCredentials),
{
    assert(!merged_credentials(file, profile, env).contains_key(k));
}

/// When the file and the environment both set a key, the merged value is
/// the environment's.
pub proof fn lemma_env_wins(file: Seq<char>, profile: Seq<char>, env: EnvCredentials, k: Seq<char>)
    requires
        file_credentials(file, profile).contains_key(k),
        env_credentials(env).contains_key(k),
    ensures
        merged_credentials(file, profile, env).contains_key(k),
        merged_credentials(file, profile, env)[k] == env_credentials(env)[k],
{
}

} // verus!
