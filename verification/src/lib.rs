use vstd::prelude::*;
use vstd::string::StringExecFns;

pub mod csv;
pub mod fingerprint;
pub mod json;
pub mod mapping;
pub mod parse;
pub mod pipeline;
pub mod sina;
pub mod strutil;
pub mod update_local_temp_data;
pub mod table;

use crate::table::Table;

verus! {

/// A data payload together with the identifier under which it is (or would
/// be) cached.  `data_id` is the fingerprint of the request that produced
/// the payload; it is `None` for results that must not touch the cache.
#[derive(Debug, Default)]
pub struct DataResult<T> {
    pub data_id: Option<String>,
    pub data: Option<T>,
}

/// The conventional cache path: `{cache_temp_home}/{data_id}-{date}.csv`.
pub open spec fn spec_cache_file_name(
    cache_temp_home: Seq<char>,
    data_id: Seq<char>,
    date_ymd: Seq<char>,
) -> Seq<char> {
    cache_temp_home + "/"@ + data_id + "-"@ + date_ymd + ".csv"@
}

impl DataResult<Table> {
    pub fn new(data_id: String, data_frame: Table) -> (r: DataResult<Table>)
        ensures
            r.data_id == Some(data_id),
            r.data == Some(data_frame),
    {
        DataResult { data_id: Some(data_id), data: Some(data_frame) }
    }

    /// An empty result that carries no identity and must not be cached.
    pub fn empty() -> (r: DataResult<Table>)
        ensures
            r.data_id is None,
            r.data matches Some(t) && t@.len() == 0 && t.wf(),
    {
        DataResult { data_id: None, data: Some(Table::empty()) }
    }

    /// Where a same-day snapshot for `data_id` lives under the cache root.
    pub fn cache_file_name(cache_temp_home: &str, data_id: &str, date_ymd: &str) -> (r: String)
        ensures
            r@ == spec_cache_file_name(cache_temp_home@, data_id@, date_ymd@),
    {
        let mut s = String::new();
        s.append(cache_temp_home);
        s.append("/");
        s.append(data_id);
        s.append("-");
        s.append(date_ymd);
        s.append(".csv");
        s
    }

    /// Parses a plain JSON object-array body into a result tagged with the
    /// empty identity; a body that does not parse yields an empty result.
    pub fn from_json(value: String) -> (r: DataResult<Table>)
        ensures
            match crate::parse::spec_json_body_table(value@) {
                Ok(tv) => (r.data_id matches Some(id) && id@ == Seq::<char>::empty())
                    && (r.data matches Some(t) && t@ == tv),
                Err(_) => r.data_id is None && (r.data matches Some(t) && t@.len() == 0),
            },
    {
        match crate::parse::json_body_to_table(value.as_str()) {
            Ok(t) => DataResult { data_id: Some(String::new()), data: Some(t) },
            Err(_) => DataResult::empty(),
        }
    }
}

} // verus!
