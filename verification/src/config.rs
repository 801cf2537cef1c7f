//! Profiles and the application's configuration.

use vstd::prelude::*;

use crate::error::{Error, ErrorModel, SecretField};
use crate::text::{chars_eq, chars_less, chars_lt, has_prefix, lemma_chars_lt_irreflexive, lemma_chars_lt_total, lemma_chars_lt_transitive, starts_with,
    sub_chars, to_chars, from_chars,
};

verus! {

/// One bucket and how to reach it.
#[derive(Debug, Clone)]
pub struct ProfileConfig {
    pub bucket: String,
    pub endpoint: String,
    pub region: String,
    pub access_key: String,
    pub secret_key: String,
    pub path_style: bool,
    pub cdn_domain: Option<String>,
}

/// Profiles by name, kept sorted by name with no name twice (what a
/// `BTreeMap<String, ProfileConfig>` holds).
#[derive(Debug)]
pub struct ProfileMap {
    entries: Vec<(String, ProfileConfig)>,
}

/// The profile of `name` among `entries`, the last one wins.
pub open spec fn lookup_in(entries: Seq<(String, ProfileConfig)>, name: Seq<char>) -> Option<
    ProfileConfig,
>
    decreases entries.len(),
{
    if entries.len() == 0 {
        None
    } else if entries.last().0@ == name {
        Some(entries.last().1)
    } else {
        lookup_in(entries.drop_last(), name)
    }
}

/// `lookup_in` finds a name exactly when some entry has it.
proof fn lemma_lookup_in_some(entries: Seq<(String, ProfileConfig)>, name: Seq<char>)
    ensures
        lookup_in(entries, name) is Some <==> exists|i: int|
            0 <= i < entries.len() && #[trigger] entries[i].0@ == name,
    decreases entries.len(),
{
    if entries.len() > 0 {
        lemma_lookup_in_some(entries.drop_last(), name);
        if lookup_in(entries.drop_last(), name) is Some {
            let i = choose|i: int|
                0 <= i < entries.drop_last().len() && #[trigger] entries.drop_last()[i].0@ == name;
            assert(entries[i].0@ == name);
        }
        if exists|i: int| 0 <= i < entries.len() && #[trigger] entries[i].0@ == name {
            let i = choose|i: int| 0 <= i < entries.len() && #[trigger] entries[i].0@ == name;
            if i < entries.len() - 1 {
                assert(entries.drop_last()[i].0@ == name);
            }
        }
    }
}

/// With distinct names, the entry at `i` is found for its name.
proof fn lemma_lookup_in_at(entries: Seq<(String, ProfileConfig)>, i: int)
    requires
        0 <= i < entries.len(),
        forall|a: int, b: int| 0 <= a < b < entries.len() ==> entries[a].0@ != entries[b].0@,
    ensures
        lookup_in(entries, entries[i].0@) == Some(entries[i].1),
    decreases entries.len(),
{
    if i < entries.len() - 1 {
        assert(entries.drop_last()[i] == entries[i]);
        lemma_lookup_in_at(entries.drop_last(), i);
    }
}

impl ProfileMap {
    /// The names, in order.
    pub closed spec fn keys(self) -> Seq<Seq<char>> {
        Seq::new(self.entries@.len(), |i: int| self.entries@[i].0@)
    }

    /// Names strictly increase.
    #[verifier::type_invariant]
    closed spec fn sorted(self) -> bool {
        forall|i: int, j: int|
            0 <= i < j < self.entries@.len() ==> chars_lt(
                #[trigger] self.entries@[i].0@,
                #[trigger] self.entries@[j].0@,
            )
    }

    /// The profile of `name`.
    pub closed spec fn lookup(self, name: Seq<char>) -> Option<ProfileConfig> {
        lookup_in(self.entries@, name)
    }

    /// Names are sorted, each once, and they are exactly the names with a
    /// profile.
    proof fn lemma_keys(self)
        requires
            self.sorted(),
        ensures
            forall|i: int, j: int|
                0 <= i < j < self.keys().len() ==> chars_lt(
                    #[trigger] self.keys()[i],
                    #[trigger] self.keys()[j],
                ),
            forall|name: Seq<char>| #[trigger]
                self.lookup(name) is Some <==> self.keys().contains(name),
    {
        assert forall|name: Seq<char>| #[trigger]
            self.lookup(name) is Some <==> self.keys().contains(name) by {
            lemma_lookup_in_some(self.entries@, name);
            if self.keys().contains(name) {
                let k = choose|k: int| 0 <= k < self.keys().len() && self.keys()[k] == name;
                assert(self.entries@[k].0@ == name);
            }
            if self.lookup(name) is Some {
                let i = choose|i: int|
                    0 <= i < self.entries@.len() && #[trigger] self.entries@[i].0@ == name;
                assert(self.keys()[i] == name);
            }
        }
    }

    /// The entry at `i` is the profile of its name.
    proof fn lemma_lookup_at(self, i: int)
        requires
            self.sorted(),
            0 <= i < self.entries@.len(),
        ensures
            self.lookup(self.entries@[i].0@) == Some(self.entries@[i].1),
    {
        assert forall|a: int, b: int|
            0 <= a < b < self.entries@.len() implies self.entries@[a].0@ != self.entries@[b].0@ by {
            assert(chars_lt(self.entries@[a].0@, self.entries@[b].0@));
            lemma_chars_lt_irreflexive(self.entries@[a].0@);
        }
        lemma_lookup_in_at(self.entries@, i);
    }

    /// An empty map.
    pub fn new() -> (m: ProfileMap)
        ensures
            m.keys().len() == 0,
            forall|name: Seq<char>| #[trigger] m.lookup(name) is None,
    {
        ProfileMap { entries: Vec::new() }
    }

    /// Where `name` goes: the first index whose name is not before it.
    fn position(&self, name: &[char]) -> (p: usize)
        ensures
            p <= self.entries@.len(),
            forall|k: int| 0 <= k < p ==> chars_lt(#[trigger] self.entries@[k].0@, name@),
            p < self.entries@.len() ==> !chars_lt(self.entries@[p as int].0@, name@),
    {
        let mut i: usize = 0;
        while i < self.entries.len()
            invariant
                i <= self.entries@.len(),
                forall|k: int| 0 <= k < i ==> chars_lt(#[trigger] self.entries@[k].0@, name@),
            decreases self.entries@.len() - i,
        {
            let k = to_chars(self.entries[i].0.as_str());
            if !chars_less(&k, name) {
                return i;
            }
            i = i + 1;
        }
        i
    }

    /// Sets the profile of `name`, replacing one there was.
    pub fn insert(&mut self, name: String, profile: ProfileConfig)
        ensures
            forall|k: Seq<char>| #[trigger]
                final(self).lookup(k) == if k == name@ {
                    Some(profile)
                } else {
                    old(self).lookup(k)
                },
            final(self).keys().to_set() == old(self).keys().to_set().insert(name@),
    {
        proof {
            use_type_invariant(&*self);
        }
        let n = to_chars(name.as_str());
        let p = self.position(&n);
        let mut entries: Vec<(String, ProfileConfig)> = Vec::new();
        std::mem::swap(&mut entries, &mut self.entries);
        let ghost old_entries = entries@;
        let ghost old_map = ProfileMap { entries: entries };
        assert(old_map.lookup(name@) == old(self).lookup(name@));
        let replace = p < entries.len() && {
            let k = to_chars(entries[p].0.as_str());
            chars_eq(&k, &n)
        };
        if replace {
            entries.set(p, (name, profile));
            proof {
                assert forall|i: int, j: int|
                    0 <= i < j < entries@.len() implies chars_lt(
                    #[trigger] entries@[i].0@,
                    #[trigger] entries@[j].0@,
                ) by {
                    assert(chars_lt(old_entries[i].0@, old_entries[j].0@));
                }
            }
        } else {
            entries.insert(p, (name, profile));
            proof {
                if p < old_entries.len() {
                    lemma_chars_lt_total(old_entries[p as int].0@, n@);
                }
                assert forall|i: int, j: int|
                    0 <= i < j < entries@.len() implies chars_lt(
                    #[trigger] entries@[i].0@,
                    #[trigger] entries@[j].0@,
                ) by {
                    if j < p {
                        assert(chars_lt(old_entries[i].0@, old_entries[j].0@));
                    } else if j == p {
                        assert(chars_lt(old_entries[i].0@, n@));
                    } else if i == p {
                        if j - 1 > p {
                            assert(chars_lt(old_entries[p as int].0@, old_entries[j - 1].0@));
                            lemma_chars_lt_transitive(
                                n@,
                                old_entries[p as int].0@,
                                old_entries[j - 1].0@,
                            );
                        }
                    } else if i < p {
                        assert(chars_lt(old_entries[i].0@, n@));
                        if j - 1 > p {
                            assert(chars_lt(old_entries[p as int].0@, old_entries[j - 1].0@));
                            lemma_chars_lt_transitive(
                                n@,
                                old_entries[p as int].0@,
                                old_entries[j - 1].0@,
                            );
                        }
                        lemma_chars_lt_transitive(old_entries[i].0@, n@, old_entries[j - 1].0@);
                    } else {
                        assert(chars_lt(old_entries[i - 1].0@, old_entries[j - 1].0@));
                    }
                }
            }
        }
        self.entries = entries;
        proof {
            let new_map = *self;
            assert forall|k: Seq<char>| #[trigger]
                new_map.lookup(k) == if k == name@ {
                    Some(profile)
                } else {
                    old(self).lookup(k)
                } by {
                let ne = new_map.entries@;
                if k == name@ {
                    new_map.lemma_lookup_at(p as int);
                } else {
                    lemma_lookup_in_some(old_entries, k);
                    lemma_lookup_in_some(ne, k);
                    if old(self).lookup(k) is Some {
                        let i = choose|i: int|
                            0 <= i < old_entries.len() && #[trigger] old_entries[i].0@ == k;
                        old_map.lemma_lookup_at(i);
                        let ni = if replace || i < p {
                            i
                        } else {
                            i + 1
                        };
                        assert(ne[ni].0@ == k);
                        new_map.lemma_lookup_at(ni);
                    } else if new_map.lookup(k) is Some {
                        let i = choose|i: int| 0 <= i < ne.len() && #[trigger] ne[i].0@ == k;
                        let oi = if replace || i < p {
                            i
                        } else {
                            i - 1
                        };
                        assert(old_entries[oi].0@ == k);
                    }
                }
            }
            assert(new_map.keys().to_set() =~= old(self).keys().to_set().insert(name@)) by {
                assert forall|k: Seq<char>|
                    new_map.keys().to_set().contains(k) <==> old(self).keys().to_set().insert(
                        name@,
                    ).contains(k) by {
                    new_map.lemma_keys();
                    old_map.lemma_keys();
                    assert(new_map.lookup(k) is Some <==> new_map.keys().contains(k));
                    assert(old_map.keys() =~= old(self).keys());
                    assert(old(self).lookup(k) is Some <==> old(self).keys().contains(k));
                }
            }
        }
    }

    /// The profile of `name`, if there is one.
    pub fn get(&self, name: &str) -> (r: Option<&ProfileConfig>)
        ensures
            match r {
                Some(p) => self.lookup(name@) == Some(*p),
                None => self.lookup(name@) is None,
            },
    {
        proof {
            use_type_invariant(self);
        }
        let n = to_chars(name);
        let mut i: usize = 0;
        while i < self.entries.len()
            invariant
                self.sorted(),
                n@ == name@,
                i <= self.entries@.len(),
                forall|k: int| 0 <= k < i ==> #[trigger] self.entries@[k].0@ != name@,
            decreases self.entries@.len() - i,
        {
            let k = to_chars(self.entries[i].0.as_str());
            assert(k@ == self.entries@[i as int].0@);
            if chars_eq(&k, &n) {
                proof {
                    self.lemma_lookup_at(i as int);
                }
                return Some(&self.entries[i].1);
            }
            i = i + 1;
        }
        proof {
            lemma_lookup_in_some(self.entries@, name@);
        }
        None
    }

    /// Whether `name` has a profile.
    pub fn contains(&self, name: &str) -> (r: bool)
        ensures
            r == (self.lookup(name@) is Some),
    {
        self.get(name).is_some()
    }

    /// The names, in order: sorted, each once, exactly the names with a
    /// profile.
    pub fn names(&self) -> (r: Vec<String>)
        ensures
            r.deep_view() == self.keys(),
            forall|i: int, j: int|
                0 <= i < j < self.keys().len() ==> chars_lt(
                    #[trigger] self.keys()[i],
                    #[trigger] self.keys()[j],
                ),
            forall|name: Seq<char>| #[trigger]
                self.lookup(name) is Some <==> self.keys().contains(name),
    {
        proof {
            use_type_invariant(self);
            self.lemma_keys();
        }
        let mut r: Vec<String> = Vec::new();
        let mut i: usize = 0;
        while i < self.entries.len()
            invariant
                i <= self.entries@.len(),
                r@.len() == i,
                forall|k: int| 0 <= k < i ==> #[trigger] r@[k]@ == self.entries@[k].0@,
            decreases self.entries@.len() - i,
        {
            let name = self.entries[i].0.clone();
            r.push(name);
            i = i + 1;
        }
        proof {
            assert(r.deep_view() =~= self.keys());
        }
        r
    }

    /// The number of profiles.
    pub fn len(&self) -> (r: usize)
        ensures
            r == self.keys().len(),
    {
        self.entries.len()
    }
}

/// The application's configuration: the profiles, and the one to use when
/// none is named.
#[derive(Debug)]
pub struct AppConfig {
    pub profiles: ProfileMap,
    pub default_profile: Option<String>,
}

/// The `default_profile` setting taken as given by the configuration file:
/// blank means none, and a name must have a profile.
pub open spec fn spec_default_profile(profiles: ProfileMap, setting: Option<Seq<char>>) -> Result<
    Option<Seq<char>>,
    ErrorModel,
> {
    match setting {
        None => Ok(None),
        Some(name) => if name.len() == 0 {
            Ok(None)
        } else if profiles.lookup(name) is Some {
            Ok(Some(name))
        } else {
            Err(ErrorModel::DefaultProfileMissing(name))
        },
    }
}

impl AppConfig {
    /// The configuration read from a file's profiles and its
    /// `settings.default_profile`.
    pub fn from_settings(profiles: ProfileMap, default_setting: Option<String>) -> (r: Result<
        AppConfig,
        Error,
    >)
        ensures
            match r {
                Ok(c) => spec_default_profile(profiles, crate::command::types::opt_str_view(
                    default_setting,
                )) == Ok::<Option<Seq<char>>, ErrorModel>(
                    crate::command::types::opt_str_view(c.default_profile),
                ) && c.profiles == profiles,
                Err(e) => spec_default_profile(
                    profiles,
                    crate::command::types::opt_str_view(default_setting),
                ) == Err::<Option<Seq<char>>, ErrorModel>(e@),
            },
    {
        let default_profile = match default_setting {
            None => None,
            Some(name) => {
                if name.as_str().is_empty() {
                    None
                } else {
                    if !profiles.contains(name.as_str()) {
                        return Err(Error::DefaultProfileMissing(name));
                    }
                    Some(name)
                }
            },
        };
        Ok(AppConfig { profiles, default_profile })
    }

    /// The profile called `name`.
    pub fn profile(&self, name: &str) -> (r: Result<&ProfileConfig, Error>)
        ensures
            match r {
                Ok(p) => self.profiles.lookup(name@) == Some(*p),
                Err(e) => self.profiles.lookup(name@) is None && e@ == ErrorModel::ProfileNotFound(
                    name@,
                ),
            },
    {
        match self.profiles.get(name) {
            Some(p) => Ok(p),
            None => Err(Error::ProfileNotFound(name.to_owned())),
        }
    }

    /// The name of the default profile, if one is set.
    pub fn default_profile(&self) -> (r: Option<&str>)
        ensures
            match r {
                Some(n) => self.default_profile matches Some(d) && d@ == n@,
                None => self.default_profile is None,
            },
    {
        match &self.default_profile {
            Some(d) => Some(d.as_str()),
            None => None,
        }
    }
}

/// The name of the environment variable a credential refers to
/// (`env:NAME`), if it refers to one.
pub open spec fn spec_env_reference(value: Seq<char>) -> Option<Seq<char>> {
    if has_prefix(value, "env:"@) {
        Some(value.skip(4))
    } else {
        None
    }
}

/// A credential: the value of the variable that `env:NAME` refers to, which
/// must be set and non-empty, or the value itself, which must be non-empty.
/// `env_value` is the variable's value where it is set.
pub open spec fn spec_resolve_secret(
    value: Seq<char>,
    field: SecretField,
    env_value: Option<Seq<char>>,
) -> Result<Seq<char>, ErrorModel> {
    match spec_env_reference(value) {
        Some(name) => match env_value {
            None => Err(ErrorModel::EnvVarNotSet(name, field)),
            Some(v) => if v.len() == 0 {
                Err(ErrorModel::EnvVarEmpty(name, field))
            } else {
                Ok(v)
            },
        },
        None => if value.len() == 0 {
            Err(ErrorModel::EmptySecret(field))
        } else {
            Ok(value)
        },
    }
}

/// The environment variable that `value` refers to with `env:NAME`.
pub fn env_reference(value: &str) -> (r: Option<String>)
    ensures
        crate::command::types::opt_str_view(r) == spec_env_reference(value@),
{
    let v = to_chars(value);
    let prefix = to_chars("env:");
    proof {
        reveal_strlit("env:");
    }
    if starts_with(&v, &prefix) {
        let name = sub_chars(&v, 4, v.len());
        proof {
            assert(name@ =~= value@.skip(4));
        }
        Some(from_chars(&name))
    } else {
        None
    }
}

/// A credential; see [`spec_resolve_secret`].
pub fn resolve_secret(value: &str, field: SecretField, env_value: Option<&str>) -> (r: Result<
    String,
    Error,
>)
    ensures
        crate::error::result_view(r) == spec_resolve_secret(
            value@,
            field,
            crate::command::parse::opt_str_view(env_value),
        ),
{
    match env_reference(value) {
        Some(name) => match env_value {
            None => Err(Error::EnvVarNotSet(name, field)),
            Some(v) => {
                if v.is_empty() {
                    Err(Error::EnvVarEmpty(name, field))
                } else {
                    Ok(v.to_owned())
                }
            },
        },
        None => {
            if value.is_empty() {
                Err(Error::EmptySecret(field))
            } else {
                Ok(value.to_owned())
            }
        },
    }
}

impl ProfileConfig {
    /// The access key; `env_value` is the value of the environment variable
    /// that the key refers to (see [`env_reference`]), where it is set.
    pub fn resolve_access_key(&self, env_value: Option<&str>) -> (r: Result<String, Error>)
        ensures
            crate::error::result_view(r) == spec_resolve_secret(
                self.access_key@,
                SecretField::AccessKey,
                crate::command::parse::opt_str_view(env_value),
            ),
    {
        resolve_secret(self.access_key.as_str(), SecretField::AccessKey, env_value)
    }

    /// The secret key; `env_value` is the value of the environment variable
    /// that the key refers to (see [`env_reference`]), where it is set.
    pub fn resolve_secret_key(&self, env_value: Option<&str>) -> (r: Result<String, Error>)
        ensures
            crate::error::result_view(r) == spec_resolve_secret(
                self.secret_key@,
                SecretField::SecretKey,
                crate::command::parse::opt_str_view(env_value),
            ),
    {
        resolve_secret(self.secret_key.as_str(), SecretField::SecretKey, env_value)
    }
}

/// The starter config file that `init` writes.
pub open spec fn spec_config_template() -> Seq<char> {
    "[settings]\n# default_profile = \"myprofile\"\n\n[myprofile]\nbucket = \"my-bucket\"\nendpoint = \"https://s3.example.com\"\nregion = \"auto\"\naccess_key = \"env:ACCESS_KEY\"\nsecret_key = \"env:SECRET_KEY\"\npath_style = false\n# download objects through your CDN domain instead of the S3 endpoint\n# cdn_domain = \"https://cdn.example.com\"\n"@
}

/// The starter config file that `init` writes.
pub fn config_template() -> (r: String)
    ensures
        r@ == spec_config_template(),
{
    "[settings]\n# default_profile = \"myprofile\"\n\n[myprofile]\nbucket = \"my-bucket\"\nendpoint = \"https://s3.example.com\"\nregion = \"auto\"\naccess_key = \"env:ACCESS_KEY\"\nsecret_key = \"env:SECRET_KEY\"\npath_style = false\n# download objects through your CDN domain instead of the S3 endpoint\n# cdn_domain = \"https://cdn.example.com\"\n".to_owned()
}

/// Whether `init` may write the config file at `path`: not over an existing
/// one unless forced.
pub fn check_init(path: &str, exists: bool, force: bool) -> (r: Result<(), Error>)
    ensures
        exists && !force ==> (r matches Err(e) && e@ == ErrorModel::ConfigExists(path@)),
        !(exists && !force) ==> r is Ok,
{
    if exists && !force {
        Err(Error::ConfigExists(path.to_owned()))
    } else {
        Ok(())
    }
}

} // verus!
