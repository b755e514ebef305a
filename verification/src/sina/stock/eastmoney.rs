use vstd::prelude::*;

use crate::fingerprint::fingerprint;
use crate::mapping::{pairs_view, MappingError};
use crate::parse::{array_body_to_table, forced_view, spec_array_body_table, ParseError};
use crate::pipeline::{format_table, DataResultFormat, HttpSource, RequestSpec};
use crate::table::{ColType, Table};
use crate::DataResult;

verus! {

/// Real-time quotes for the Shanghai A-share list from the Eastmoney quote
/// endpoint: one request returns the whole list as an array of objects
/// keyed by cryptic field codes, wrapped in JSON framing.
#[derive(Clone, Copy, Debug)]
pub struct EastmoneySpotEmDataSource {}

impl EastmoneySpotEmDataSource {
    /// `f12` carries exchange codes with leading zeroes, so it is pinned to
    /// text whatever shape its values take.
    pub open spec fn spec_forced_schema() -> Seq<(Seq<char>, ColType)> {
        seq![("f12"@, ColType::Text)]
    }

    fn forced_schema() -> (r: Vec<(String, ColType)>)
        ensures
            forced_view(r@) == Self::spec_forced_schema(),
    {
        let r: Vec<(String, ColType)> = vec![("f12".to_owned(), ColType::Text)];
        proof {
            assert(forced_view(r@) =~= Self::spec_forced_schema());
        }
        r
    }

    /// The field codes of the payload and the column names they become.
    /// A pair whose target equals its source marks a field that is fetched
    /// but not kept under a readable name.
    pub open spec fn spec_pairs() -> Seq<(Seq<char>, Seq<char>)> {
        seq![
            ("f12"@, "代码"@),
            ("f14"@, "名称"@),
            ("f2"@, "最新价"@),
            ("f3"@, "涨跌幅"@),
            ("f4"@, "涨跌额"@),
            ("f5"@, "成交量"@),
            ("f6"@, "成交额"@),
            ("f7"@, "振幅"@),
            ("f15"@, "最高"@),
            ("f16"@, "最低"@),
            ("f17"@, "今开"@),
            ("f18"@, "昨收"@),
            ("f10"@, "量比"@),
            ("f8"@, "换手率"@),
            ("f9"@, "市盈率-动态"@),
            ("f23"@, "市净率"@),
            ("f20"@, "总市值"@),
            ("f21"@, "流通市值"@),
            ("f22"@, "涨速"@),
            ("f11"@, "5分钟涨跌"@),
            ("f24"@, "60日涨跌幅"@),
            ("f25"@, "年初至今涨跌幅"@),
            ("f12"@, "symbol"@),
            ("f1"@, "f1"@),
            ("f13"@, "f13"@),
            ("f62"@, "f62"@),
            ("f115"@, "f115"@),
            ("f128"@, "f128"@),
            ("f136"@, "f136"@),
            ("f152"@, "f152"@),
        ]
    }

    /// The column names and types a cached snapshot is loaded under.
    pub open spec fn spec_schema() -> Seq<(Seq<char>, ColType)> {
        seq![
            ("代码"@, ColType::Text),
            ("名称"@, ColType::Text),
            ("最新价"@, ColType::Float64),
            ("涨跌幅"@, ColType::Float64),
            ("涨跌额"@, ColType::Float64),
            ("成交量"@, ColType::Float64),
            ("成交额"@, ColType::Float64),
            ("振幅"@, ColType::Float64),
            ("最高"@, ColType::Float64),
            ("最低"@, ColType::Float64),
            ("今开"@, ColType::Float64),
            ("昨收"@, ColType::Float64),
            ("量比"@, ColType::Float64),
            ("换手率"@, ColType::Float64),
            ("市盈率-动态"@, ColType::Float64),
            ("市净率"@, ColType::Float64),
            ("总市值"@, ColType::Float64),
            ("流通市值"@, ColType::Float64),
            ("涨速"@, ColType::Float64),
            ("5分钟涨跌"@, ColType::Float64),
            ("60日涨跌幅"@, ColType::Float64),
            ("年初至今涨跌幅"@, ColType::Float64),
            ("symbol"@, ColType::Text),
        ]
    }

    /// The schema a same-day cached snapshot is loaded under.
    pub fn load_cached_schema(&self) -> (r: Option<Vec<(String, ColType)>>)
        ensures
            r matches Some(v) && forced_view(v@) == Self::spec_schema(),
    {
        let v: Vec<(String, ColType)> = vec![
            ("代码".to_owned(), ColType::Text),
            ("名称".to_owned(), ColType::Text),
            ("最新价".to_owned(), ColType::Float64),
            ("涨跌幅".to_owned(), ColType::Float64),
            ("涨跌额".to_owned(), ColType::Float64),
            ("成交量".to_owned(), ColType::Float64),
            ("成交额".to_owned(), ColType::Float64),
            ("振幅".to_owned(), ColType::Float64),
            ("最高".to_owned(), ColType::Float64),
            ("最低".to_owned(), ColType::Float64),
            ("今开".to_owned(), ColType::Float64),
            ("昨收".to_owned(), ColType::Float64),
            ("量比".to_owned(), ColType::Float64),
            ("换手率".to_owned(), ColType::Float64),
            ("市盈率-动态".to_owned(), ColType::Float64),
            ("市净率".to_owned(), ColType::Float64),
            ("总市值".to_owned(), ColType::Float64),
            ("流通市值".to_owned(), ColType::Float64),
            ("涨速".to_owned(), ColType::Float64),
            ("5分钟涨跌".to_owned(), ColType::Float64),
            ("60日涨跌幅".to_owned(), ColType::Float64),
            ("年初至今涨跌幅".to_owned(), ColType::Float64),
            ("symbol".to_owned(), ColType::Text),
        ];
        proof {
            assert(forced_view(v@) =~= Self::spec_schema());
        }
        Some(v)
    }
}

impl HttpSource for EastmoneySpotEmDataSource {
    open spec fn spec_url(&self) -> Seq<char> {
        "http://82.push2.eastmoney.com/api/qt/clist/get?pn=1&pz=10000&po=1&np=1&ut=bd1d9ddb04089700cf9c27f6f7426281&fltt=2&invt=2&fid=f3&fs=m%3A0+t%3A6%2Cm%3A0+t%3A80%2Cm%3A1+t%3A2%2Cm%3A1+t%3A23%2Cm%3A0+t%3A81+s%3A2048&fields=f1%2Cf2%2Cf3%2Cf4%2Cf5%2Cf6%2Cf7%2Cf8%2Cf9%2Cf10%2Cf12%2Cf13%2Cf14%2Cf15%2Cf16%2Cf17%2Cf18%2Cf20%2Cf21%2Cf23%2Cf24%2Cf25%2Cf22%2Cf11%2Cf62%2Cf128%2Cf136%2Cf115%2Cf152&_=1623833739532"@
    }

    fn request(&self) -> (r: RequestSpec) {
        RequestSpec {
            method: "GET".to_owned(),
            url:
                "http://82.push2.eastmoney.com/api/qt/clist/get?pn=1&pz=10000&po=1&np=1&ut=bd1d9ddb04089700cf9c27f6f7426281&fltt=2&invt=2&fid=f3&fs=m%3A0+t%3A6%2Cm%3A0+t%3A80%2Cm%3A1+t%3A2%2Cm%3A1+t%3A23%2Cm%3A0+t%3A81+s%3A2048&fields=f1%2Cf2%2Cf3%2Cf4%2Cf5%2Cf6%2Cf7%2Cf8%2Cf9%2Cf10%2Cf12%2Cf13%2Cf14%2Cf15%2Cf16%2Cf17%2Cf18%2Cf20%2Cf21%2Cf23%2Cf24%2Cf25%2Cf22%2Cf11%2Cf62%2Cf128%2Cf136%2Cf115%2Cf152&_=1623833739532".to_owned(),
        }
    }

    fn id(&self) -> (r: String) {
        let req = self.request();
        fingerprint(req.url.as_str())
    }
}

impl DataResultFormat for EastmoneySpotEmDataSource {
    open spec fn spec_parse(&self, body: Seq<char>) -> Result<
        Seq<(Seq<char>, ColType, Seq<Seq<char>>)>,
        ParseError,
    > {
        spec_array_body_table(body, Self::spec_forced_schema())
    }

    open spec fn spec_mapping(&self) -> Seq<(Seq<char>, Seq<char>)> {
        Self::spec_pairs()
    }

    fn to_dataframe(&self, source: Option<String>) -> (r: Result<DataResult<Table>, ParseError>) {
        match source {
            Some(b) => {
                let forced = Self::forced_schema();
                match array_body_to_table(b.as_str(), &forced) {
                    Ok(t) => Ok(DataResult { data_id: Some(String::new()), data: Some(t) }),
                    Err(e) => Err(e),
                }
            },
            None => Ok(DataResult { data_id: None, data: None }),
        }
    }

    fn col_alias(&self) -> (r: Option<Vec<(String, String)>>) {
        let v: Vec<(String, String)> = vec![
            ("f12".to_owned(), "代码".to_owned()),
            ("f14".to_owned(), "名称".to_owned()),
            ("f2".to_owned(), "最新价".to_owned()),
            ("f3".to_owned(), "涨跌幅".to_owned()),
            ("f4".to_owned(), "涨跌额".to_owned()),
            ("f5".to_owned(), "成交量".to_owned()),
            ("f6".to_owned(), "成交额".to_owned()),
            ("f7".to_owned(), "振幅".to_owned()),
            ("f15".to_owned(), "最高".to_owned()),
            ("f16".to_owned(), "最低".to_owned()),
            ("f17".to_owned(), "今开".to_owned()),
            ("f18".to_owned(), "昨收".to_owned()),
            ("f10".to_owned(), "量比".to_owned()),
            ("f8".to_owned(), "换手率".to_owned()),
            ("f9".to_owned(), "市盈率-动态".to_owned()),
            ("f23".to_owned(), "市净率".to_owned()),
            ("f20".to_owned(), "总市值".to_owned()),
            ("f21".to_owned(), "流通市值".to_owned()),
            ("f22".to_owned(), "涨速".to_owned()),
            ("f11".to_owned(), "5分钟涨跌".to_owned()),
            ("f24".to_owned(), "60日涨跌幅".to_owned()),
            ("f25".to_owned(), "年初至今涨跌幅".to_owned()),
            ("f12".to_owned(), "symbol".to_owned()),
            ("f1".to_owned(), "f1".to_owned()),
            ("f13".to_owned(), "f13".to_owned()),
            ("f62".to_owned(), "f62".to_owned()),
            ("f115".to_owned(), "f115".to_owned()),
            ("f128".to_owned(), "f128".to_owned()),
            ("f136".to_owned(), "f136".to_owned()),
            ("f152".to_owned(), "f152".to_owned()),
        ];
        proof {
            assert(pairs_view(v@) =~= Self::spec_pairs());
        }
        Some(v)
    }

    fn format(&self, data: Option<Table>) -> (r: Result<DataResult<Table>, MappingError>) {
        match self.col_alias() {
            Some(pairs) => format_table(data, &pairs),
            None => {
                proof {
                    assert(false);
                }
                Ok(DataResult { data_id: None, data: None })
            },
        }
    }
}

} // verus!
