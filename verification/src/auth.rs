//! Authentication by a credential registry and authorization by a policy
//! tree.

use crate::error::XepakError;
use crate::server::RequestArgs;
use crate::strmap::StrMap;
use crate::text::{join2, same_text};
use vstd::prelude::*;
use vstd::string::*;

verus! {

/// The request header that carries the credential.
pub const API_KEY_HEADER: &'static str = "x-api-key";

/// The upper-case form of a text, as the Unicode rules that the standard
/// library follows give it.
pub uninterp spec fn uppercase(text: Seq<char>) -> Seq<char>;

/// True when every character of the text is an ASCII character.
pub open spec fn is_ascii_text(text: Seq<char>) -> bool {
    forall|i: int| 0 <= i < text.len() ==> (#[trigger] text[i]) as u32 <= 127
}

/// The character with a small ASCII letter made the capital one.
pub open spec fn ascii_upper_char(c: char) -> char {
    if 'a' <= c <= 'z' {
        ((c as u32) - 32) as char
    } else {
        c
    }
}

/// The text with every small ASCII letter made the capital one.
pub open spec fn ascii_upper(text: Seq<char>) -> Seq<char> {
    Seq::new(text.len(), |i: int| ascii_upper_char(text[i]))
}

/// `str::to_uppercase`: returns the upper-case form of the text; for a
/// text of ASCII characters that is the text with its small letters made
/// capital ones and nothing else changed.
#[verifier::external_body]
fn to_uppercase(text: &str) -> (upper: String)
    ensures
        upper@ == uppercase(text@),
        is_ascii_text(text@) ==> upper@ == ascii_upper(text@),
{
    text.to_uppercase()
}

/// The upper-case form of a text: for a text of ASCII characters the text
/// with its small letters made capital ones, and for any other text what
/// the Unicode rules give.
pub open spec fn upper_form(text: Seq<char>) -> Seq<char> {
    if is_ascii_text(text) {
        ascii_upper(text)
    } else {
        uppercase(text)
    }
}

/// The upper-case form of the text.
fn upper(text: &str) -> (made: String)
    ensures
        made@ == upper_form(text@),
{
    to_uppercase(text)
}

/// A set of role names.
#[derive(Debug, Clone)]
pub struct RoleSet {
    names: Vec<String>,
}

impl View for RoleSet {
    type V = Set<Seq<char>>;

    closed spec fn view(&self) -> Set<Seq<char>> {
        Set::new(|name: Seq<char>| exists|i: int| 0 <= i < self.names.len() && (#[trigger] self.names[i])@ == name)
    }
}

impl RoleSet {
    /// The empty set.
    pub fn new() -> (roles: Self)
        ensures
            roles@ == Set::<Seq<char>>::empty(),
    {
        let roles = RoleSet { names: Vec::new() };
        assert(roles@ =~= Set::<Seq<char>>::empty());
        roles
    }

    /// True when `name` is in the set.
    pub fn contains(&self, name: &str) -> (has: bool)
        ensures
            has == self@.contains(name@),
    {
        let mut i: usize = 0;
        while i < self.names.len()
            invariant
                0 <= i <= self.names.len(),
                forall|k: int| 0 <= k < i ==> (#[trigger] self.names[k])@ != name@,
            decreases self.names.len() - i,
        {
            if same_text(self.names[i].as_str(), name) {
                return true;
            }
            i = i + 1;
        }
        false
    }

    /// Adds `name` to the set.
    pub fn insert(&mut self, name: String)
        ensures
            final(self)@ == old(self)@.insert(name@),
    {
        if !self.contains(name.as_str()) {
            let ghost before = self.names@;
            self.names.push(name);
            assert forall|n: Seq<char>| final(self)@.contains(n) <==> old(self)@.insert(name@).contains(n) by {
                if old(self)@.contains(n) {
                    let i = choose|i: int| 0 <= i < before.len() && (#[trigger] before[i])@ == n;
                    assert(self.names[i]@ == n);
                }
                if n == name@ {
                    assert(self.names[before.len() as int]@ == n);
                }
            }
            assert(final(self)@ =~= old(self)@.insert(name@));
        } else {
            assert(final(self)@ =~= old(self)@.insert(name@));
        }
    }

    /// A copy of the set.
    pub fn copy(&self) -> (roles: Self)
        ensures
            roles@ == self@,
    {
        let mut names: Vec<String> = Vec::new();
        let mut i: usize = 0;
        while i < self.names.len()
            invariant
                0 <= i <= self.names.len(),
                names.len() == i,
                forall|k: int| 0 <= k < i ==> (#[trigger] names[k])@ == self.names[k]@,
            decreases self.names.len() - i,
        {
            names.push(self.names[i].clone());
            i = i + 1;
        }
        let roles = RoleSet { names };
        assert forall|n: Seq<char>| roles@.contains(n) <==> self@.contains(n) by {
            if roles@.contains(n) {
                let i = choose|i: int| 0 <= i < roles.names.len() && (#[trigger] roles.names[i])@ == n;
                assert(self.names[i]@ == n);
            }
            if self@.contains(n) {
                let i = choose|i: int| 0 <= i < self.names.len() && (#[trigger] self.names[i])@ == n;
                assert(roles.names[i]@ == n);
            }
        }
        assert(roles@ =~= self@);
        roles
    }
}

/// The upper-case forms of the names, as a set.
pub open spec fn uppercase_set(names: Seq<String>) -> Set<Seq<char>>
    decreases names.len(),
{
    if names.len() == 0 {
        Set::empty()
    } else {
        uppercase_set(names.drop_last()).insert(upper_form(names.last()@))
    }
}

/// What the registry knows of one credential: the identity it resolves to
/// and the roles of that identity, in upper case.
#[derive(Debug, Clone)]
pub struct AuthEntry {
    pub id: String,
    pub roles: RoleSet,
}

/// The credentials that are known, each with its identity and roles, in a
/// hash map of the `hashbrown` crate, as `sqlx_core` hands it on.
#[verifier::external_body]
#[derive(Debug)]
pub struct SimpleAuthRegistry {
    map: sqlx_core::HashMap<String, AuthEntry>,
}

/// What a registry holds: for each credential the identity that it
/// resolves to and the roles of that identity.
pub uninterp spec fn registry_entries(registry: SimpleAuthRegistry) -> Map<
    Seq<char>,
    (Seq<char>, Set<Seq<char>>),
>;

/// The registry that knows no credential, as contracts speak of it.
pub open spec fn no_entries() -> Map<Seq<char>, (Seq<char>, Set<Seq<char>>)> {
    Map::empty()
}

impl View for SimpleAuthRegistry {
    type V = Map<Seq<char>, (Seq<char>, Set<Seq<char>>)>;

    open spec fn view(&self) -> Map<Seq<char>, (Seq<char>, Set<Seq<char>>)> {
        registry_entries(*self)
    }
}

impl SimpleAuthRegistry {
    /// `hashbrown::HashMap::default`: a map that holds nothing.
    #[verifier::external_body]
    fn empty() -> (registry: Self)
        ensures
            registry_entries(registry) == no_entries(),
    {
        SimpleAuthRegistry { map: Default::default() }
    }

    /// `hashbrown::HashMap::insert`: sets what the map holds for the key,
    /// in place of what it held for it before.
    #[verifier::external_body]
    fn put(&mut self, credential: String, entry: AuthEntry)
        ensures
            registry_entries(*final(self)) == registry_entries(*old(self)).insert(
                credential@,
                (entry.id@, entry.roles@),
            ),
    {
        self.map.insert(credential, entry);
    }

    /// `hashbrown::HashMap::get`: what the map holds for the key, if it
    /// holds anything for it.
    #[verifier::external_body]
    fn find(&self, credential: &str) -> (found: Option<&AuthEntry>)
        ensures
            match found {
                Some(entry) => registry_entries(*self).contains_key(credential@)
                    && registry_entries(*self)[credential@] == (entry.id@, entry.roles@),
                None => !registry_entries(*self).contains_key(credential@),
            },
    {
        self.map.get(credential)
    }

    /// `hashbrown::HashMap::len`: the number of keys that the map holds
    /// something for.
    #[verifier::external_body]
    fn count(&self) -> (held: usize)
        ensures
            held == registry_entries(*self).dom().len(),
    {
        self.map.len()
    }

    /// A registry that knows no credential.
    pub fn new() -> (registry: Self)
        ensures
            registry@ == no_entries(),
    {
        Self::empty()
    }

    /// What the registry holds for the credential, if it knows it.
    pub fn get(&self, credential: &str) -> (found: Option<&AuthEntry>)
        ensures
            match found {
                Some(entry) => self@.contains_key(credential@) && self@[credential@] == (
                    entry.id@,
                    entry.roles@,
                ),
                None => !self@.contains_key(credential@),
            },
    {
        self.find(credential)
    }

    /// The number of credentials that the registry knows.
    pub fn len(&self) -> (count: usize)
        ensures
            count == self@.dom().len(),
    {
        self.count()
    }
}

/// One configured credential.
#[derive(Debug, Clone)]
pub struct SimpleAuthSpecs {
    /// The identity that the credential resolves to.
    pub id: String,
    /// The credential, or the name of the environment variable that holds it.
    pub key: String,
    /// True when `key` names an environment variable.
    pub from_env: bool,
    /// The roles of the identity, in any case.
    pub roles: Vec<String>,
}

/// The message that tells of a credential that the environment lacks.
pub open spec fn missing_detail(key: Seq<char>) -> Seq<char> {
    "Can't load API key from ENV variable \""@ + key + "\""@
}

impl SimpleAuthSpecs {
    /// The credential under which this entry is registered, if it can be
    /// had: `key` itself, or what `env` holds for the variable it names.
    pub open spec fn credential(&self, env: Map<Seq<char>, String>) -> Option<Seq<char>> {
        if self.from_env {
            if env.contains_key(self.key@) {
                Some(env[self.key@]@)
            } else {
                None
            }
        } else {
            Some(self.key@)
        }
    }

    /// Registers the credential with its identity and upper-cased roles. A
    /// credential that is to come from the environment is looked up in
    /// `env`; if it is missing there, nothing is registered.
    pub fn put_to_registry(&self, registry: &mut SimpleAuthRegistry, env: &StrMap<String>) -> (done:
        Result<(), XepakError>)
        ensures
            match self.credential(env@) {
                Some(credential) => {
                    &&& done is Ok
                    &&& final(registry)@ == old(registry)@.insert(
                        credential,
                        (self.id@, uppercase_set(self.roles@)),
                    )
                },
                None => {
                    &&& done matches Err(err)
                    &&& err is Cfg
                    &&& err.detail() == missing_detail(self.key@)
                    &&& final(registry)@ == old(registry)@
                },
            },
    {
        let api_key = if self.from_env {
            match env.get(self.key.as_str()) {
                Some(value) => value.clone(),
                None => {
                    let mut message = String::from_str("Can't load API key from ENV variable \"");
                    message.append(self.key.as_str());
                    message.append("\"");
                    return Err(XepakError::Cfg(message));
                },
            }
        } else {
            self.key.clone()
        };
        let mut roles = RoleSet::new();
        let mut i: usize = 0;
        proof {
            assert(self.roles@.take(0) == Seq::<String>::empty());
        }
        while i < self.roles.len()
            invariant
                0 <= i <= self.roles.len(),
                roles@ == uppercase_set(self.roles@.take(i as int)),
            decreases self.roles.len() - i,
        {
            proof {
                assert(self.roles@.take(i + 1).drop_last() == self.roles@.take(i as int));
            }
            roles.insert(upper(self.roles[i].as_str()));
            i = i + 1;
        }
        proof {
            assert(self.roles@.take(i as int) == self.roles@);
        }
        registry.put(api_key, AuthEntry { id: self.id.clone(), roles });
        Ok(())
    }
}

/// The registry that the first `count` of `specs` make, each registered in
/// turn, if all of their credentials can be had.
pub open spec fn registered(
    specs: Seq<SimpleAuthSpecs>,
    env: Map<Seq<char>, String>,
    count: int,
) -> Option<Map<Seq<char>, (Seq<char>, Set<Seq<char>>)>>
    decreases count,
{
    if count <= 0 {
        Some(Map::empty())
    } else {
        match (registered(specs, env, count - 1), specs[count - 1].credential(env)) {
            (Some(before), Some(credential)) => Some(
                before.insert(
                    credential,
                    (specs[count - 1].id@, uppercase_set(specs[count - 1].roles@)),
                ),
            ),
            _ => None,
        }
    }
}

/// Builds the registry of the configured credentials; a credential that
/// occurs twice resolves as its last entry says. Fails on the first entry
/// whose credential is to come from the environment and is missing in `env`.
pub fn auth_specs_to_registry(specs: &[SimpleAuthSpecs], env: &StrMap<String>) -> (built: Result<
    SimpleAuthRegistry,
    XepakError,
>)
    ensures
        match registered(specs@, env@, specs@.len() as int) {
            Some(entries) => built matches Ok(registry) && registry@ == entries,
            None => built matches Err(err) && err is Cfg && exists|k: int|
                0 <= k < specs@.len() && registered(specs@, env@, k) is Some && (
                #[trigger] specs@[k]).credential(env@) is None && err.detail() == missing_detail(
                    specs@[k].key@,
                ),
        },
{
    let mut registry = SimpleAuthRegistry::new();
    let mut i: usize = 0;
    while i < specs.len()
        invariant
            0 <= i <= specs.len(),
            registered(specs@, env@, i as int) == Some(registry@),
        decreases specs.len() - i,
    {
        match specs[i].put_to_registry(&mut registry, env) {
            Ok(_) => {},
            Err(err) => {
                proof {
                    lemma_registered_stays_none(specs@, env@, i + 1, specs@.len() as int);
                    assert(specs@[i as int].credential(env@) is None);
                }
                return Err(err);
            },
        }
        i = i + 1;
    }
    Ok(registry)
}

proof fn lemma_registered_stays_none(
    specs: Seq<SimpleAuthSpecs>,
    env: Map<Seq<char>, String>,
    failed: int,
    count: int,
)
    requires
        0 < failed <= count,
        registered(specs, env, failed) is None,
    ensures
        registered(specs, env, count) is None,
    decreases count,
{
    if failed < count {
        lemma_registered_stays_none(specs, env, failed, count - 1);
    }
}

/// A node of the authorization policy.
#[derive(Debug)]
pub enum CheckAuthConf {
    /// Passes when the caller has the role.
    Role { v: String },
    /// Passes when the caller is this identity, letter for letter.
    Id { v: String },
    /// Passes when all of the nested checks pass.
    And { nested: Vec<CheckAuthConf> },
    /// Passes when at least one of the nested checks passes.
    Or { nested: Vec<CheckAuthConf> },
}

impl CheckAuthConf {
    /// True when the policy admits the identity `id` with the roles `roles`.
    pub open spec fn allows(&self, id: Seq<char>, roles: Set<Seq<char>>) -> bool
        decreases self,
    {
        match self {
            CheckAuthConf::Role { v } => roles.contains(v@),
            CheckAuthConf::Id { v } => id == v@,
            CheckAuthConf::And { nested } => forall|i: int|
                0 <= i < nested.len() ==> (#[trigger] nested[i]).allows(id, roles),
            CheckAuthConf::Or { nested } => exists|i: int|
                0 <= i < nested.len() && (#[trigger] nested[i]).allows(id, roles),
        }
    }

    /// True when `normal` is this policy with every role in upper case and
    /// nothing else changed.
    pub open spec fn normalizes_to(&self, normal: &CheckAuthConf) -> bool
        decreases self,
    {
        match (self, normal) {
            (CheckAuthConf::Role { v }, CheckAuthConf::Role { v: upper }) => upper@ == upper_form(
                v@,
            ),
            (CheckAuthConf::Id { v }, CheckAuthConf::Id { v: same }) => same@ == v@,
            (CheckAuthConf::And { nested }, CheckAuthConf::And { nested: normals }) => {
                &&& nested.len() == normals.len()
                &&& forall|i: int|
                    0 <= i < nested.len() ==> (#[trigger] nested[i]).normalizes_to(&normals[i])
            },
            (CheckAuthConf::Or { nested }, CheckAuthConf::Or { nested: normals }) => {
                &&& nested.len() == normals.len()
                &&& forall|i: int|
                    0 <= i < nested.len() ==> (#[trigger] nested[i]).normalizes_to(&normals[i])
            },
            _ => false,
        }
    }

    fn normalize_all(nested: &Vec<CheckAuthConf>) -> (normals: Vec<CheckAuthConf>)
        ensures
            nested.len() == normals.len(),
            forall|i: int|
                0 <= i < nested.len() ==> (#[trigger] nested[i]).normalizes_to(&normals[i]),
        decreases nested, 0nat,
    {
        let mut normals: Vec<CheckAuthConf> = Vec::new();
        let mut i: usize = 0;
        while i < nested.len()
            invariant
                0 <= i <= nested.len(),
                normals.len() == i,
                forall|k: int| 0 <= k < i ==> (#[trigger] nested[k]).normalizes_to(&normals[k]),
            decreases nested.len() - i,
        {
            normals.push(nested[i].normalize());
            i = i + 1;
        }
        normals
    }

    /// The policy with every role in upper case; identities are left as
    /// they are.
    pub fn normalize(&self) -> (normal: Self)
        ensures
            self.normalizes_to(&normal),
        decreases self, 1nat,
    {
        match self {
            CheckAuthConf::Role { v } => CheckAuthConf::Role { v: upper(v.as_str()) },
            CheckAuthConf::Id { v } => CheckAuthConf::Id { v: v.clone() },
            CheckAuthConf::And { nested } => CheckAuthConf::And {
                nested: Self::normalize_all(nested),
            },
            CheckAuthConf::Or { nested } => CheckAuthConf::Or {
                nested: Self::normalize_all(nested),
            },
        }
    }

    /// Evaluates the policy for the identity `id` with the roles `roles`.
    #[verifier::loop_isolation(false)]
    pub fn is_allowed(&self, id: &str, roles: &RoleSet) -> (allowed: bool)
        ensures
            allowed == self.allows(id@, roles@),
        decreases self,
    {
        match self {
            CheckAuthConf::Role { v } => roles.contains(v.as_str()),
            CheckAuthConf::Id { v } => same_text(id, v.as_str()),
            CheckAuthConf::And { nested } => {
                let mut i: usize = 0;
                while i < nested.len()
                    invariant
                        0 <= i <= nested.len(),
                        forall|k: int| 0 <= k < i ==> (#[trigger] nested[k]).allows(id@, roles@),
                    decreases nested.len() - i,
                {
                    if !nested[i].is_allowed(id, roles) {
                        return false;
                    }
                    i = i + 1;
                }
                true
            },
            CheckAuthConf::Or { nested } => {
                let mut i: usize = 0;
                while i < nested.len()
                    invariant
                        0 <= i <= nested.len(),
                        forall|k: int| 0 <= k < i ==> !(#[trigger] nested[k]).allows(id@, roles@),
                    decreases nested.len() - i,
                {
                    if nested[i].is_allowed(id, roles) {
                        return true;
                    }
                    i = i + 1;
                }
                false
            },
        }
    }
}

/// The message that refuses a caller whose identity is not known.
pub open spec fn not_authenticated() -> Seq<char> {
    "Not authenticated"@
}

/// The step of a request that resolves the caller's credential.
#[derive(Debug, Clone)]
pub struct SimpleAuthenticationProcessor {
    allow_no_auth: bool,
}

impl SimpleAuthenticationProcessor {
    /// True when requests without a credential are meant to be let through.
    pub closed spec fn allows_no_auth(&self) -> bool {
        self.allow_no_auth
    }

    /// The step, with its setting.
    pub fn new(allow_no_auth: bool) -> (made: Self)
        ensures
            made.allows_no_auth() == allow_no_auth,
    {
        SimpleAuthenticationProcessor { allow_no_auth }
    }

    /// The step, with its setting, in a box.
    pub fn new_boxed(allow_no_auth: bool) -> (made: Box<Self>)
        ensures
            made.allows_no_auth() == allow_no_auth,
    {
        Box::new(Self::new(allow_no_auth))
    }

    /// True when `after` and `done` are what this step makes of the
    /// request `before`: a request that is authenticated already is left as
    /// it is; else the identity and the roles that the registry holds for
    /// the credential are bound to it; a missing credential and an unknown
    /// one are refused in the same words.
    pub open spec fn handled(
        registry: SimpleAuthRegistry,
        api_key: Option<&str>,
        before: RequestArgs,
        after: RequestArgs,
        done: Result<(), XepakError>,
    ) -> bool {
        &&& before.unchanged_but_caller(&after)
        &&& if before.caller() is Some {
            done is Ok && after.caller() == before.caller()
        } else if api_key matches Some(key) && registry@.contains_key(key@) {
            done is Ok && after.caller() == Some(registry@[api_key->0@])
        } else {
            &&& done matches Err(err)
            &&& err is Forbidden
            &&& err.detail() == not_authenticated()
            &&& after.caller() is None
        }
    }

    /// True when the step lets the request through: when the request is
    /// authenticated already or the registry knows the credential.
    pub open spec fn lets_through(
        registry: SimpleAuthRegistry,
        api_key: Option<&str>,
        before: RequestArgs,
    ) -> bool {
        before.caller() is Some || (api_key matches Some(key) && registry@.contains_key(key@))
    }

    /// Resolves the credential `api_key`, the value of the credential
    /// header if the request has one, and binds the identity and the roles
    /// that the registry holds for it to the request. A request that is
    /// authenticated already is left as it is. A missing credential and an
    /// unknown one are refused in the same words.
    pub fn handle(
        &self,
        registry: &SimpleAuthRegistry,
        api_key: Option<&str>,
        input: &mut RequestArgs,
    ) -> (done: Result<(), XepakError>)
        ensures
            Self::handled(*registry, api_key, *old(input), *final(input), done),
    {
        if input.is_authenticated() {
            return Ok(());
        }
        let key = match api_key {
            Some(key) => key,
            None => {
                return Err(XepakError::Forbidden(String::from_str("Not authenticated")));
            },
        };
        match registry.get(key) {
            Some(entry) => {
                input.set_auth(entry.id.clone(), entry.roles.copy());
                Ok(())
            },
            None => Err(XepakError::Forbidden(String::from_str("Not authenticated"))),
        }
    }
}

/// True when `policy` is what the configured checks make: none for no
/// check, the check itself for one, and "at least one of them" for more; in
/// each case with every role in upper case.
pub open spec fn is_policy_of(checks: Seq<CheckAuthConf>, policy: Option<CheckAuthConf>) -> bool {
    if checks.len() == 0 {
        policy is None
    } else if checks.len() == 1 {
        match policy {
            Some(only) => checks[0].normalizes_to(&only),
            None => false,
        }
    } else {
        match policy {
            Some(CheckAuthConf::Or { nested }) => {
                &&& nested.len() == checks.len()
                &&& forall|i: int|
                    0 <= i < checks.len() ==> (#[trigger] checks[i]).normalizes_to(&nested[i])
            },
            _ => false,
        }
    }
}

/// The step of a request that holds the caller to the policy.
#[derive(Debug)]
pub struct AuthorizeProcessor {
    check: Option<CheckAuthConf>,
}

impl AuthorizeProcessor {
    /// The policy: none if being authenticated is enough.
    pub closed spec fn policy(&self) -> Option<CheckAuthConf> {
        self.check
    }

    /// The policy that the configured checks make: none for no check, the
    /// check itself for one, and "at least one of them" for more; in each
    /// case with every role in upper case.
    pub fn new(checks: &[CheckAuthConf]) -> (made: Self)
        ensures
            is_policy_of(checks@, made.policy()),
    {
        let check = if checks.len() > 1 {
            let mut nested: Vec<CheckAuthConf> = Vec::new();
            let mut i: usize = 0;
            while i < checks.len()
                invariant
                    0 <= i <= checks.len(),
                    nested.len() == i,
                    forall|k: int|
                        0 <= k < i ==> (#[trigger] checks@[k]).normalizes_to(&nested[k]),
                decreases checks.len() - i,
            {
                nested.push(checks[i].normalize());
                i = i + 1;
            }
            Some(CheckAuthConf::Or { nested })
        } else if checks.len() == 1 {
            Some(checks[0].normalize())
        } else {
            None
        };
        AuthorizeProcessor { check }
    }

    /// The step with the policy that the configured checks make, in a box.
    pub fn new_boxed(checks: &[CheckAuthConf]) -> (made: Box<Self>)
        ensures
            is_policy_of(checks@, made.policy()),
    {
        Box::new(Self::new(checks))
    }

    /// The message that refuses an authenticated caller.
    pub open spec fn not_authorized(id: Seq<char>) -> Seq<char> {
        "Not authorized to perform request! Auth id: "@ + id
    }

    /// True when `done` is what this step makes of the request: a request
    /// whose caller is not known is refused, and so is one whose caller the
    /// policy, if there is one, does not allow.
    pub open spec fn handled(&self, input: RequestArgs, done: Result<(), XepakError>) -> bool {
        match input.caller() {
            None => done matches Err(err) && err is Forbidden && err.detail()
                == not_authenticated(),
            Some((id, roles)) => match self.policy() {
                None => done is Ok,
                Some(policy) => if policy.allows(id, roles) {
                    done is Ok
                } else {
                    done matches Err(err) && err is Forbidden && err.detail()
                        == Self::not_authorized(id)
                },
            },
        }
    }

    /// Admits the request if its caller is authenticated and the policy, if
    /// there is one, allows the caller.
    pub fn handle(&self, input: &RequestArgs) -> (done: Result<(), XepakError>)
        ensures
            self.handled(*input, done),
    {
        let (id, roles) = match input.get_auth() {
            Some(auth) => auth,
            None => {
                return Err(XepakError::Forbidden(String::from_str("Not authenticated")));
            },
        };
        let check = match &self.check {
            Some(check) => check,
            None => {
                return Ok(());
            },
        };
        if !check.is_allowed(id, roles) {
            return Err(
                XepakError::Forbidden(join2("Not authorized to perform request! Auth id: ", id)),
            );
        }
        Ok(())
    }
}

} // verus!
