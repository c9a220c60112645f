//! Data kinds, asset classes, and flat-file path construction.
//!
//! Flat files live under a fixed directory scheme: asset-class prefix,
//! data-type directory, year, then one file per day named
//! `YYYY-MM-DD.csv.gz`. The path builders state the exact character
//! sequence they produce.

use vstd::prelude::*;

use crate::text::{dec_str, digit_char, push_u64};

verus! {

/// The flat-file data kinds on offer.
#[derive(Debug, Clone, Copy, PartialEq, Eq, Structural)]
pub enum PolygonDataType {
    /// Individual trades.
    Trades,
    /// Individual quotes.
    Quotes,
    /// Minute aggregates.
    MinuteAggs,
    /// Day aggregates.
    DayAggs,
    /// Grouped daily files.
    GroupedDaily,
}

/// The asset classes on offer.
#[derive(Debug, Clone, Copy, PartialEq, Eq, Structural)]
pub enum AssetClass {
    /// US stocks.
    Stocks,
    /// US options.
    Options,
    /// Futures.
    Futures,
    /// Indices.
    Indices,
    /// Foreign exchange.
    Forex,
    /// Global crypto.
    Crypto,
}

/// The directory prefix of an asset class.
pub open spec fn s3_prefix_spec(a: AssetClass) -> Seq<char> {
    match a {
        AssetClass::Stocks => "us_stocks_sip"@,
        AssetClass::Options => "us_options_opra"@,
        AssetClass::Futures => "futures"@,
        AssetClass::Indices => "indices"@,
        AssetClass::Forex => "forex"@,
        AssetClass::Crypto => "global_crypto"@,
    }
}

/// The directory name of a data kind.
pub open spec fn dir_name_spec(t: PolygonDataType) -> Seq<char> {
    match t {
        PolygonDataType::Trades => "trades_v1"@,
        PolygonDataType::Quotes => "quotes_v1"@,
        PolygonDataType::MinuteAggs => "minute_aggs_v1"@,
        PolygonDataType::DayAggs => "day_aggs_v1"@,
        PolygonDataType::GroupedDaily => "grouped_daily_v1"@,
    }
}

impl AssetClass {
    /// The S3 directory prefix for this asset class.
    pub fn s3_prefix(&self) -> (r: &'static str)
        ensures
            r@ == s3_prefix_spec(*self),
    {
        match self {
            AssetClass::Stocks => "us_stocks_sip",
            AssetClass::Options => "us_options_opra",
            AssetClass::Futures => "futures",
            AssetClass::Indices => "indices",
            AssetClass::Forex => "forex",
            AssetClass::Crypto => "global_crypto",
        }
    }
}

impl PolygonDataType {
    /// The directory name for this data kind.
    pub fn dir_name(&self) -> (r: &'static str)
        ensures
            r@ == dir_name_spec(*self),
    {
        match self {
            PolygonDataType::Trades => "trades_v1",
            PolygonDataType::Quotes => "quotes_v1",
            PolygonDataType::MinuteAggs => "minute_aggs_v1",
            PolygonDataType::DayAggs => "day_aggs_v1",
            PolygonDataType::GroupedDaily => "grouped_daily_v1",
        }
    }
}

/// A number rendered as exactly two digits, zero-padded.
pub open spec fn two_digit_str(x: int) -> Seq<char> {
    seq![digit_char(x / 10), digit_char(x % 10)]
}

/// The bucket-relative key of one day's flat file:
/// `prefix/data_type/YYYY/YYYY-MM-DD.csv.gz`.
pub open spec fn flat_file_key_spec(
    a: AssetClass,
    t: PolygonDataType,
    year: int,
    month: int,
    day: int,
) -> Seq<char> {
    s3_prefix_spec(a) + "/"@ + dir_name_spec(t) + "/"@ + dec_str(year) + "/"@ + dec_str(year)
        + "-"@ + two_digit_str(month) + "-"@ + two_digit_str(day) + ".csv.gz"@
}

/// Append a two-digit, zero-padded number.
fn push_two_digits(s: &mut String, x: u64)
    requires
        x < 100,
    ensures
        final(s)@ == old(s)@ + two_digit_str(x as int),
{
    let tens: u64 = x / 10;
    let ones: u64 = x % 10;
    s.append(digit_str_of(tens));
    s.append(digit_str_of(ones));
    proof {
        assert(s@ =~= old(s)@ + two_digit_str(x as int));
    }
}

/// One decimal digit as a string slice.
fn digit_str_of(d: u64) -> (r: &'static str)
    requires
        d < 10,
    ensures
        r@ == seq![digit_char(d as int)],
{
    proof {
        reveal_strlit("0");
        reveal_strlit("1");
        reveal_strlit("2");
        reveal_strlit("3");
        reveal_strlit("4");
        reveal_strlit("5");
        reveal_strlit("6");
        reveal_strlit("7");
        reveal_strlit("8");
        reveal_strlit("9");
    }
    match d {
        0 => "0",
        1 => "1",
        2 => "2",
        3 => "3",
        4 => "4",
        5 => "5",
        6 => "6",
        7 => "7",
        8 => "8",
        _ => "9",
    }
}

/// Build the bucket-relative key of one day's flat file for an asset
/// class and data kind.
pub fn flat_file_key(a: &AssetClass, t: &PolygonDataType, year: u64, month: u64, day: u64) -> (r:
    String)
    requires
        1 <= month <= 12,
        1 <= day <= 31,
    ensures
        r@ == flat_file_key_spec(*a, *t, year as int, month as int, day as int),
{
    let mut s = String::new();
    s.append(a.s3_prefix());
    s.append("/");
    s.append(t.dir_name());
    s.append("/");
    push_u64(&mut s, year);
    s.append("/");
    push_u64(&mut s, year);
    s.append("-");
    push_two_digits(&mut s, month);
    s.append("-");
    push_two_digits(&mut s, day);
    s.append(".csv.gz");
    proof {
        assert(s@ =~= flat_file_key_spec(*a, *t, year as int, month as int, day as int));
    }
    s
}

/// Build the S3 URL of one day's flat file: `s3://bucket/` followed by
/// the bucket-relative key.
pub fn flat_file_url(
    bucket: &str,
    a: &AssetClass,
    t: &PolygonDataType,
    year: u64,
    month: u64,
    day: u64,
) -> (r: String)
    requires
        1 <= month <= 12,
        1 <= day <= 31,
    ensures
        r@ == "s3://"@ + bucket@ + "/"@ + flat_file_key_spec(
            *a,
            *t,
            year as int,
            month as int,
            day as int,
        ),
{
    let mut s = String::new();
    s.append("s3://");
    s.append(bucket);
    s.append("/");
    let key = flat_file_key(a, t, year, month, day);
    s.append(key.as_str());
    proof {
        assert(s@ =~= "s3://"@ + bucket@ + "/"@ + flat_file_key_spec(
            *a,
            *t,
            year as int,
            month as int,
            day as int,
        ));
    }
    s
}

} // verus!
