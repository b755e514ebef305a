use vstd::prelude::*;

use crate::csv::{load_csv, spec_load_csv, spec_store_csv, write_csv};
use crate::fingerprint::md5_hex_of;
use crate::mapping::{apply_field_mapping, pairs_view, spec_apply_mapping, MappingError};
use crate::parse::{forced_view, ParseError};
use crate::table::{ColType, Table};
use crate::DataResult;

verus! {

/// A fully constructed outbound request: the method and the URL with its
/// query already embedded.  Its canonical URL string is what the fingerprint
/// hashes.
pub struct RequestSpec {
    pub method: String,
    pub url: String,
}

/// A data source reached over HTTP: how to build its request and how to
/// derive the request's stable identity.
pub trait HttpSource: Sized {
    /// The canonical URL of this source's one request.
    spec fn spec_url(&self) -> Seq<char>;

    /// Builds the request.  Pure: the same URL on every call.
    fn request(&self) -> (r: RequestSpec)
        ensures
            r.method@ == "GET"@,
            r.url@ == self.spec_url(),
    ;

    /// The fingerprint of the request: the hex digest of its canonical URL.
    /// Equal configurations always yield equal identities.
    fn id(&self) -> (r: String)
        ensures
            r@ == md5_hex_of(self.spec_url()),
            r@.len() == 32,
    ;
}

/// How a data source turns a raw response body into a normalized table:
/// its parser and its column rename/drop mapping.
pub trait DataResultFormat: Sized {
    /// What parsing a body yields for this source.
    spec fn spec_parse(&self, body: Seq<char>) -> Result<
        Seq<(Seq<char>, ColType, Seq<Seq<char>>)>,
        ParseError,
    >;

    /// The source's declared (source name, target name) column mapping.
    spec fn spec_mapping(&self) -> Seq<(Seq<char>, Seq<char>)>;

    /// Parses a raw body into a provisional table (no body: an empty
    /// result).
    fn to_dataframe(&self, source: Option<String>) -> (r: Result<DataResult<Table>, ParseError>)
        ensures
            match source {
                Some(b) => match r {
                    Ok(dr) => self.spec_parse(b@) matches Ok(tv) && ((dr.data matches Some(t)
                        && t@ == tv && t.wf()) && (dr.data_id matches Some(id) && id@ == Seq::<
                        char,
                    >::empty())),
                    Err(e) => self.spec_parse(b@) == Err::<
                        Seq<(Seq<char>, ColType, Seq<Seq<char>>)>,
                        ParseError,
                    >(e),
                },
                None => r matches Ok(dr) && dr.data is None && dr.data_id is None,
            },
    ;

    /// The column mapping, as declared pairs.
    fn col_alias(&self) -> (r: Option<Vec<(String, String)>>)
        ensures
            r matches Some(v) && pairs_view(v@) == self.spec_mapping(),
    ;

    /// Renames and drops columns per the mapping (no table: an empty
    /// result).  A mapping that does not fit the table is an explicit error.
    fn format(&self, data: Option<Table>) -> (r: Result<DataResult<Table>, MappingError>)
        requires
            match data {
                Some(t) => t.wf(),
                None => true,
            },
        ensures
            match data {
                Some(t) => match spec_apply_mapping(t@, self.spec_mapping()) {
                    Ok(tv) => r matches Ok(dr) && dr.data_id is None && (dr.data matches Some(t2)
                        && t2@ == tv && t2.wf()),
                    Err(e) => r == Err::<DataResult<Table>, MappingError>(e),
                },
                None => r matches Ok(dr) && dr.data is None && dr.data_id is None,
            },
    ;
}

/// Shared body for `DataResultFormat::format`: applies the pairs to the
/// table.
pub fn format_table(data: Option<Table>, pairs: &Vec<(String, String)>) -> (r: Result<
    DataResult<Table>,
    MappingError,
>)
    requires
        match data {
            Some(t) => t.wf(),
            None => true,
        },
    ensures
        match data {
            Some(t) => match spec_apply_mapping(t@, pairs_view(pairs@)) {
                Ok(tv) => r matches Ok(dr) && dr.data_id is None && (dr.data matches Some(t2) && t2@
                    == tv && t2.wf()),
                Err(e) => r == Err::<DataResult<Table>, MappingError>(e),
            },
            None => r matches Ok(dr) && dr.data is None && dr.data_id is None,
        },
{
    match data {
        Some(t) => match apply_field_mapping(&t, pairs) {
            Ok(t2) => Ok(DataResult { data_id: None, data: Some(t2) }),
            Err(e) => Err(e),
        },
        None => Ok(DataResult { data_id: None, data: None }),
    }
}

/// Why a fresh fetch could not produce a table: the body did not parse, or
/// the parsed table did not carry the mapping's source columns.  Both mean
/// the provider's response contract changed, and both propagate to the
/// caller.
#[derive(Clone, Copy, Debug, PartialEq, Eq, Structural)]
pub enum FetchError {
    Parse(ParseError),
    Mapping(MappingError),
}

/// What a cache miss must persist: the file to write and its full content.
pub struct StorePlan {
    pub path: String,
    pub content: String,
}

/// Cache-aside step one: with a same-day cache entry present nothing is
/// fetched; without one, the request to execute is exactly the source's.
pub fn fetch_plan<S: HttpSource>(source: &S, cache_hit: bool) -> (r: Option<RequestSpec>)
    ensures
        cache_hit <==> r is None,
        r matches Some(req) ==> req.url@ == source.spec_url() && req.method@ == "GET"@,
{
    if cache_hit {
        None
    } else {
        Some(source.request())
    }
}

/// Cache-aside step two, hit path: the cache file's text, loaded under the
/// source's declared schema.  An unreadable or ill-shaped file degrades to
/// an empty, untagged result rather than failing the fetch.
pub fn fetch_from_cache(data_id: String, text: Option<String>, schema: &Vec<(String, ColType)>) -> (r:
    DataResult<Table>)
    ensures
        match text {
            Some(s) => match spec_load_csv(s@, forced_view(schema@)) {
                Some(tv) => (r.data_id matches Some(id) && id@ == data_id@) && (r.data
                    matches Some(t) && t@ == tv),
                None => r.data_id is None && (r.data matches Some(t) && t@.len() == 0),
            },
            None => r.data_id is None && (r.data matches Some(t) && t@.len() == 0),
        },
{
    match text {
        Some(s) => match load_csv(s.as_str(), schema) {
            Some(t) => DataResult { data_id: Some(data_id), data: Some(t) },
            None => DataResult { data_id: None, data: Some(Table::empty()) },
        },
        None => DataResult { data_id: None, data: Some(Table::empty()) },
    }
}

/// Cache-aside step two, miss path.  A transport failure (no body) degrades
/// to an empty table tagged with the fingerprint and nothing is cached; a
/// body that does not parse, or that does not carry the mapping's source
/// columns, is a hard error; otherwise the parsed table is normalized by
/// the field mapping, tagged, and handed back with the exact file the
/// caller must write to cache it.
pub fn fetch_on_miss<S: DataResultFormat>(
    source: &S,
    data_id: String,
    body: Option<String>,
    cache_temp_home: &str,
    date_ymd: &str,
) -> (r: Result<(DataResult<Table>, Option<StorePlan>), FetchError>)
    ensures
        match body {
            None => r matches Ok((dr, sp)) && (dr.data_id matches Some(id) && id@ == data_id@)
                && (dr.data matches Some(t) && t@.len() == 0) && sp is None,
            Some(b) => match source.spec_parse(b@) {
                Err(e) => r == Err::<(DataResult<Table>, Option<StorePlan>), FetchError>(
                    FetchError::Parse(e),
                ),
                Ok(tv) => match spec_apply_mapping(tv, source.spec_mapping()) {
                    Err(e) => r == Err::<(DataResult<Table>, Option<StorePlan>), FetchError>(
                        FetchError::Mapping(e),
                    ),
                    Ok(tv2) => r matches Ok((dr, sp)) && (dr.data_id matches Some(id) && id@
                        == data_id@) && (dr.data matches Some(t2) && t2@ == tv2) && (sp
                        matches Some(plan) && plan.path@ == crate::spec_cache_file_name(
                        cache_temp_home@,
                        data_id@,
                        date_ymd@,
                    ) && plan.content@ == spec_store_csv(tv2)),
                },
            },
        },
{
    match body {
        None => Ok((DataResult { data_id: Some(data_id), data: Some(Table::empty()) }, None)),
        Some(b) => match source.to_dataframe(Some(b)) {
            Err(e) => Err(FetchError::Parse(e)),
            Ok(dr) => match source.format(dr.data) {
                Err(e) => Err(FetchError::Mapping(e)),
                Ok(dr2) => match dr2.data {
                    Some(t2) => {
                        let path = DataResult::cache_file_name(
                            cache_temp_home,
                            data_id.as_str(),
                            date_ymd,
                        );
                        let content = write_csv(&t2);
                        Ok(
                            (
                                DataResult { data_id: Some(data_id), data: Some(t2) },
                                Some(StorePlan { path, content }),
                            ),
                        )
                    },
                    None => {
                        proof {
                            assert(false);
                        }
                        Err(FetchError::Parse(ParseError::InvalidBody))
                    },
                },
            },
        },
    }
}

} // verus!
