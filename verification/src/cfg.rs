//! The configuration: the server's own settings and the specifications of
//! its endpoints.

use crate::auth::SimpleAuthSpecs;
use crate::processor::PreProcessor;
use crate::schema::Schema;
use crate::storage::StorageSettings;
use crate::text::same_text;
use vstd::prelude::*;
use vstd::string::*;

verus! {

/// The settings of the server.
#[derive(Debug, Clone)]
pub struct XepakConf {
    /// The port to listen on.
    pub port: u16,
    /// The directory that holds the specifications.
    pub specs_dir: String,
    /// The storages.
    pub storage: Vec<StorageSettings>,
}

impl XepakConf {
    /// True when the settings name at least one storage.
    pub fn validate(&self) -> (valid: bool)
        ensures
            valid == (self.storage@.len() > 0),
    {
        self.storage.len() > 0
    }
}

/// The configured credentials.
#[derive(Debug, Clone)]
pub struct XepakAuthSpecs {
    pub simple: Vec<SimpleAuthSpecs>,
}

/// A script, by its name.
#[derive(Debug, Clone)]
pub struct RhaiScript {
    pub id: String,
    pub script: String,
}

/// What an endpoint answers with.
#[derive(Debug, Clone)]
pub enum ResourceSpecs {
    /// The rows of a query, given as a template.
    Query { data_source: String, query: String },
    /// The rows of a query whose template a script makes.
    QueryScript { data_source: String, script: String },
}

/// The specification of one endpoint.
#[derive(Debug)]
pub struct EndpointSpecs {
    /// The pattern of the paths that the endpoint answers.
    pub uri: String,
    pub resource: ResourceSpecs,
    /// The declarations of the arguments.
    pub schema: Schema,
    /// True when arguments that the schema does not declare are refused.
    pub strict_schema: bool,
    /// The name of the argument that holds the row limit.
    pub limit_arg: String,
    /// The row limit where the request gives none.
    pub fetch_limit: usize,
    /// The name of the argument that holds the row offset.
    pub offset_arg: String,
    /// True when the answer is one record, not a list.
    pub single_record_response: bool,
    /// The steps that a request goes through first.
    pub processor: Vec<PreProcessor>,
}

/// The specifications: credentials, scripts and endpoints.
#[derive(Debug)]
pub struct XepakSpecs {
    pub auth: Option<XepakAuthSpecs>,
    pub script: Vec<RhaiScript>,
    pub endpoint: Vec<EndpointSpecs>,
}

/// True when no two of the texts are the same.
pub open spec fn all_distinct(texts: Seq<Seq<char>>) -> bool {
    forall|i: int, j: int| 0 <= i < j < texts.len() ==> texts[i] != texts[j]
}

/// The names of the scripts.
pub open spec fn script_ids(scripts: Seq<RhaiScript>) -> Seq<Seq<char>> {
    Seq::new(scripts.len(), |i: int| scripts[i].id@)
}

/// The patterns of the endpoints.
pub open spec fn endpoint_uris(endpoints: Seq<EndpointSpecs>) -> Seq<Seq<char>> {
    Seq::new(endpoints.len(), |i: int| endpoints[i].uri@)
}

fn distinct(texts: &Vec<&str>) -> (is: bool)
    ensures
        is == all_distinct(Seq::new(texts@.len(), |i: int| texts@[i]@)),
{
    let ghost views = Seq::new(texts@.len(), |i: int| texts@[i]@);
    let mut j: usize = 0;
    while j < texts.len()
        invariant
            0 <= j <= texts.len(),
            views == Seq::new(texts@.len(), |i: int| texts@[i]@),
            forall|a: int, b: int| 0 <= a < b < j ==> views[a] != views[b],
        decreases texts.len() - j,
    {
        let mut i: usize = 0;
        while i < j
            invariant
                0 <= i <= j < texts.len(),
                views == Seq::new(texts@.len(), |i: int| texts@[i]@),
                forall|a: int| 0 <= a < i ==> views[a] != views[j as int],
            decreases j - i,
        {
            if same_text(texts[i], texts[j]) {
                proof {
                    assert(views[i as int] == views[j as int]);
                }
                return false;
            }
            i = i + 1;
        }
        j = j + 1;
    }
    true
}

impl XepakSpecs {
    /// Adds the scripts and endpoints of `other` after those that are here,
    /// and takes the credentials of `other` if it has any.
    pub fn extend(&mut self, other: XepakSpecs)
        ensures
            final(self).auth == (if other.auth is Some {
                other.auth
            } else {
                old(self).auth
            }),
            final(self).script@ == old(self).script@ + other.script@,
            final(self).endpoint@ == old(self).endpoint@ + other.endpoint@,
    {
        let mut other = other;
        if other.auth.is_some() {
            self.auth = other.auth;
        }
        self.script.append(&mut other.script);
        self.endpoint.append(&mut other.endpoint);
    }

    /// True when no two scripts have the same name and no two endpoints
    /// the same pattern.
    pub fn validate(&self) -> (valid: bool)
        ensures
            valid == (all_distinct(script_ids(self.script@)) && all_distinct(
                endpoint_uris(self.endpoint@),
            )),
    {
        let mut ids: Vec<&str> = Vec::new();
        let mut i: usize = 0;
        while i < self.script.len()
            invariant
                0 <= i <= self.script.len(),
                ids@.len() == i,
                forall|k: int| 0 <= k < i ==> (#[trigger] ids@[k])@ == self.script@[k].id@,
            decreases self.script.len() - i,
        {
            ids.push(self.script[i].id.as_str());
            i = i + 1;
        }
        let mut uris: Vec<&str> = Vec::new();
        let mut i: usize = 0;
        while i < self.endpoint.len()
            invariant
                0 <= i <= self.endpoint.len(),
                uris@.len() == i,
                forall|k: int| 0 <= k < i ==> (#[trigger] uris@[k])@ == self.endpoint@[k].uri@,
            decreases self.endpoint.len() - i,
        {
            uris.push(self.endpoint[i].uri.as_str());
            i = i + 1;
        }
        proof {
            assert(Seq::new(ids@.len(), |i: int| ids@[i]@) =~= script_ids(self.script@));
            assert(Seq::new(uris@.len(), |i: int| uris@[i]@) =~= endpoint_uris(self.endpoint@));
        }
        let scripts_distinct = distinct(&ids);
        let endpoints_distinct = distinct(&uris);
        scripts_distinct && endpoints_distinct
    }
}

/// The port to listen on where none is configured.
pub fn default_port() -> (port: u16)
    ensures
        port == 8080,
{
    8080
}

/// The directory of the specifications where none is configured.
pub fn default_specs_dir() -> (dir: String)
    ensures
        dir@ == "./specs"@,
{
    String::from_str("./specs")
}

/// The name of the argument that holds the row limit where none is
/// configured.
pub fn default_limit_key() -> (key: String)
    ensures
        key@ == "limit"@,
{
    String::from_str("limit")
}

/// The name of the argument that holds the row offset where none is
/// configured.
pub fn default_offset_key() -> (key: String)
    ensures
        key@ == "offset"@,
{
    String::from_str("offset")
}

/// The row limit where none is configured.
pub fn default_limit_max() -> (limit: usize)
    ensures
        limit == 1000,
{
    1000
}

} // verus!
