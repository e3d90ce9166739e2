use vstd::prelude::*;

use polars::io::cloud::{AmazonS3ConfigKey, CloudOptions};
use polars::prelude::{
    datetime, lit, DataFrame, DatetimeArgs, Expr, LazyFrame, PolarsError, ScanArgsParquet, Series,
};

use crate::credentials::AwsCredentials;
use crate::datetime::DateParts;

verus! {

/// A lazy query of the tabular engine; opaque here.
#[verifier::external_type_specification]
#[verifier::external_body]
pub struct ExLazyFrame(LazyFrame);

/// A materialised table of the tabular engine; opaque here.
#[verifier::external_type_specification]
#[verifier::external_body]
pub struct ExDataFrame(DataFrame);

/// A column of the tabular engine; opaque here. Declared because the
/// declaration of `DataFrame` refers to it.
#[verifier::external_type_specification]
#[verifier::external_body]
pub struct ExSeries(Series);

/// An expression of the tabular engine; opaque here.
#[verifier::external_type_specification]
#[verifier::external_body]
pub struct ExExpr(Expr);

/// An error of the tabular engine; opaque here.
#[verifier::external_type_specification]
#[verifier::external_body]
pub struct ExPolarsError(PolarsError);

/// The expression that `col` builds for a name.
pub uninterp spec fn column_named(name: Seq<char>) -> Expr;

/// The expression that `Expr::eq` builds from its two operands.
pub uninterp spec fn equal_of(left: Expr, right: Expr) -> Expr;

/// The timestamp expression that `datetime` builds from six literal parts.
pub uninterp spec fn datetime_of(parts: DateParts) -> Expr;

/// The lazy query that `LazyFrame::filter` builds from a query and a predicate.
pub uninterp spec fn filtered(frame: LazyFrame, predicate: Expr) -> LazyFrame;

/// The lazy query that `LazyFrame::select` builds from a query and expressions.
pub uninterp spec fn selected(frame: LazyFrame, exprs: Seq<Expr>) -> LazyFrame;

/// Relies on `LazyFrame::scan_parquet` with default arguments: opens a lazy
/// scan of the local parquet file at `path`, or fails.
#[verifier::external_body]
pub(crate) fn scan_local(path: &str) -> Result<LazyFrame, PolarsError> {
    LazyFrame::scan_parquet(path, ScanArgsParquet::default())
}

/// Relies on `CloudOptions::with_aws` and `LazyFrame::scan_parquet`: opens a
/// lazy scan of the object at `url`, signed with `credentials`, or fails.
#[verifier::external_body]
pub(crate) fn scan_s3(url: &str, credentials: &AwsCredentials) -> Result<LazyFrame, PolarsError> {
    let options = CloudOptions::default().with_aws([
        (AmazonS3ConfigKey::AccessKeyId, credentials.access_key_id.clone()),
        (AmazonS3ConfigKey::SecretAccessKey, credentials.secret_access_key.clone()),
        (AmazonS3ConfigKey::Region, credentials.region.clone()),
        (AmazonS3ConfigKey::Token, credentials.session_token.clone()),
    ]);
    let args = ScanArgsParquet { cloud_options: Some(options), ..ScanArgsParquet::default() };
    LazyFrame::scan_parquet(url, args)
}

/// Relies on `polars::prelude::col`: the column named `name`, or every
/// column for `"*"`.
#[verifier::external_body]
pub(crate) fn column(name: &str) -> (r: Expr)
    ensures
        r == column_named(name@),
{
    polars::prelude::col(name)
}

/// Relies on `Expr::eq`: the predicate that `left` equals `right`.
#[verifier::external_body]
pub(crate) fn equals(left: Expr, right: Expr) -> (r: Expr)
    ensures
        r == equal_of(left, right),
{
    left.eq(right)
}

/// Relies on `polars::prelude::datetime` over `DatetimeArgs` of literals:
/// the timestamp that the six parts denote.
#[verifier::external_body]
pub(crate) fn datetime_literal(parts: &DateParts) -> (r: Expr)
    ensures
        r == datetime_of(*parts),
{
    datetime(
        DatetimeArgs::new(lit(parts.0), lit(parts.1), lit(parts.2)).with_hms(
            lit(parts.3),
            lit(parts.4),
            lit(parts.5),
        ),
    )
}

/// Relies on `LazyFrame::filter`: keeps the rows that `predicate` holds of.
#[verifier::external_body]
pub(crate) fn filter_frame(frame: LazyFrame, predicate: Expr) -> (r: LazyFrame)
    ensures
        r == filtered(frame, predicate),
{
    frame.filter(predicate)
}

/// Relies on `LazyFrame::select`: keeps the columns that `exprs` name.
#[verifier::external_body]
pub(crate) fn select_frame(frame: LazyFrame, exprs: Vec<Expr>) -> (r: LazyFrame)
    ensures
        r == selected(frame, exprs@),
{
    frame.select(exprs)
}

/// Relies on `LazyFrame::collect`: runs the query, or fails.
#[verifier::external_body]
pub(crate) fn collect_frame(frame: LazyFrame) -> Result<DataFrame, PolarsError> {
    frame.collect()
}

/// The text that `PolarsError`'s `Display` writes for an error.
pub uninterp spec fn text_of_error(error: PolarsError) -> Seq<char>;

/// Relies on `PolarsError`'s `Display`: the error's text, which depends on
/// the error alone.
#[verifier::external_body]
pub(crate) fn error_text(error: &PolarsError) -> (r: String)
    ensures
        r@ == text_of_error(*error),
{
    error.to_string()
}

} // verus!
