use vstd::prelude::*;

use crate::fingerprint::fingerprint;
use crate::mapping::{pairs_view, MappingError};
use crate::parse::{forced_view, json_body_to_table, spec_json_body_table, ParseError};
use crate::pipeline::{format_table, DataResultFormat, HttpSource, RequestSpec};
use crate::table::{ColType, Table};
use crate::DataResult;

verus! {

/// Real-time quotes for all Chinese stock indexes from the Sina finance
/// market-center endpoint.  The response is a plain JSON array of flat
/// objects with English field names.
#[derive(Clone, Copy, Debug)]
pub struct SinaIndexSpotDataSource {}

impl SinaIndexSpotDataSource {
    /// The payload's field names and the column names they become.  The
    /// raw numeric `code` is kept beside the prefixed `symbol`.
    pub open spec fn spec_pairs() -> Seq<(Seq<char>, Seq<char>)> {
        seq![
            ("symbol"@, "代码"@),
            ("name"@, "名称"@),
            ("trade"@, "最新价"@),
            ("changepercent"@, "涨跌幅"@),
            ("pricechange"@, "涨跌额"@),
            ("volume"@, "成交量"@),
            ("amount"@, "成交额"@),
            ("buy"@, "买"@),
            ("high"@, "最高"@),
            ("low"@, "最低"@),
            ("open"@, "今开"@),
            ("settlement"@, "昨收"@),
            ("sell"@, "卖"@),
            ("ticktime"@, "时间"@),
            ("code"@, "code"@),
        ]
    }

    /// The column names and types a cached snapshot is loaded under.
    pub open spec fn spec_schema() -> Seq<(Seq<char>, ColType)> {
        seq![
            ("symbol"@, ColType::Text),
            ("代码"@, ColType::Text),
            ("名称"@, ColType::Text),
            ("最新价"@, ColType::Float64),
            ("涨跌幅"@, ColType::Float64),
            ("涨跌额"@, ColType::Float64),
            ("成交量"@, ColType::Float64),
            ("成交额"@, ColType::Float64),
            ("买"@, ColType::Float64),
            ("最高"@, ColType::Float64),
            ("最低"@, ColType::Float64),
            ("今开"@, ColType::Float64),
            ("昨收"@, ColType::Float64),
            ("卖"@, ColType::Float64),
            ("时间"@, ColType::Text),
        ]
    }

    /// The schema a same-day cached snapshot is loaded under.
    pub fn load_cached_schema(&self) -> (r: Option<Vec<(String, ColType)>>)
        ensures
            r matches Some(v) && forced_view(v@) == Self::spec_schema(),
    {
        let v: Vec<(String, ColType)> = vec![
            ("symbol".to_owned(), ColType::Text),
            ("代码".to_owned(), ColType::Text),
            ("名称".to_owned(), ColType::Text),
            ("最新价".to_owned(), ColType::Float64),
            ("涨跌幅".to_owned(), ColType::Float64),
            ("涨跌额".to_owned(), ColType::Float64),
            ("成交量".to_owned(), ColType::Float64),
            ("成交额".to_owned(), ColType::Float64),
            ("买".to_owned(), ColType::Float64),
            ("最高".to_owned(), ColType::Float64),
            ("最低".to_owned(), ColType::Float64),
            ("今开".to_owned(), ColType::Float64),
            ("昨收".to_owned(), ColType::Float64),
            ("卖".to_owned(), ColType::Float64),
            ("时间".to_owned(), ColType::Text),
        ];
        proof {
            assert(forced_view(v@) =~= Self::spec_schema());
        }
        Some(v)
    }
}

impl HttpSource for SinaIndexSpotDataSource {
    open spec fn spec_url(&self) -> Seq<char> {
        "http://vip.stock.finance.sina.com.cn/quotes_service/api/json_v2.php/Market_Center.getHQNodeDataSimple?page=1&num=400&sort=symbol&asc=1&node=hs_s&_s_r_a=page"@
    }

    fn request(&self) -> (r: RequestSpec) {
        RequestSpec {
            method: "GET".to_owned(),
            url:
                "http://vip.stock.finance.sina.com.cn/quotes_service/api/json_v2.php/Market_Center.getHQNodeDataSimple?page=1&num=400&sort=symbol&asc=1&node=hs_s&_s_r_a=page".to_owned(),
        }
    }

    fn id(&self) -> (r: String) {
        let req = self.request();
        fingerprint(req.url.as_str())
    }
}

impl DataResultFormat for SinaIndexSpotDataSource {
    open spec fn spec_parse(&self, body: Seq<char>) -> Result<
        Seq<(Seq<char>, ColType, Seq<Seq<char>>)>,
        ParseError,
    > {
        spec_json_body_table(body)
    }

    open spec fn spec_mapping(&self) -> Seq<(Seq<char>, Seq<char>)> {
        Self::spec_pairs()
    }

    fn to_dataframe(&self, source: Option<String>) -> (r: Result<DataResult<Table>, ParseError>) {
        match source {
            Some(b) => match json_body_to_table(b.as_str()) {
                Ok(t) => Ok(DataResult { data_id: Some(String::new()), data: Some(t) }),
                Err(e) => Err(e),
            },
            None => Ok(DataResult { data_id: None, data: None }),
        }
    }

    fn col_alias(&self) -> (r: Option<Vec<(String, String)>>) {
        let v: Vec<(String, String)> = vec![
            ("symbol".to_owned(), "代码".to_owned()),
            ("name".to_owned(), "名称".to_owned()),
            ("trade".to_owned(), "最新价".to_owned()),
            ("changepercent".to_owned(), "涨跌幅".to_owned()),
            ("pricechange".to_owned(), "涨跌额".to_owned()),
            ("volume".to_owned(), "成交量".to_owned()),
            ("amount".to_owned(), "成交额".to_owned()),
            ("buy".to_owned(), "买".to_owned()),
            ("high".to_owned(), "最高".to_owned()),
            ("low".to_owned(), "最低".to_owned()),
            ("open".to_owned(), "今开".to_owned()),
            ("settlement".to_owned(), "昨收".to_owned()),
            ("sell".to_owned(), "卖".to_owned()),
            ("ticktime".to_owned(), "时间".to_owned()),
            ("code".to_owned(), "code".to_owned()),
        ];
        proof {
            assert(pairs_view(v@) =~= Self::spec_pairs());
        }
        Some(v)
    }

    fn format(&self, data: Option<Table>) -> (r: Result<DataResult<Table>, MappingError>) {
        match self.col_alias() {
            Some(pairs) => format_table(data, &pairs),
            None => {
                proof {
                    assert(false);
                }
                Ok(DataResult { data_id: None, data: None })
            },
        }
    }
}

} // verus!
