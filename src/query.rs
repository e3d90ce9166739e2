use vstd::prelude::*;

use polars::prelude::{DataFrame, Expr, LazyFrame, PolarsError};

use crate::credentials::{
    credentials_message, default_profile, get_credentials, resolve, AwsCredentials,
    CredentialSources, CredentialsError,
};
use crate::datetime::{
    datetime_message, extract_date_parts, parse_datetime, DateParts, DateTimeError,
};
use crate::engine::{
    collect_frame, column, column_named, datetime_literal, datetime_of, equal_of, equals, error_text,
    filter_frame, filtered, scan_local, scan_s3, select_frame, selected, text_of_error,
};
use crate::home::{expand_home, home_marked};
use crate::template::{distinct_strings, first_occurrences};
use crate::text::{cut, cut_at, same_text, slice, starts_with, views};

verus! {

/// Which columns a query keeps.
pub enum Projection {
    /// Every column of the source.
    All,
    /// These columns, in this order; `select_projection` gives each name once.
    Columns(Vec<String>),
}

/// An equality filter on one timestamp column.
pub struct IndexFilter {
    pub column: String,
    pub value: DateParts,
}

/// What a query does to the rows and columns of its source.
pub struct QueryPlan {
    pub filter: Option<IndexFilter>,
    pub projection: Projection,
}

/// An object in cloud storage, with the credentials to read it.
pub struct CloudObject {
    pub bucket: String,
    pub key: String,
    pub credentials: AwsCredentials,
}

/// Where a query reads its table.
pub enum Source {
    /// A file on the local file system.
    Local(String),
    /// An object in cloud storage.
    Cloud(CloudObject),
}

/// Why a query failed.
#[derive(Debug)]
pub enum QueryError {
    /// Only one of the index name and the index value was given.
    MissingIndexArgument,
    /// The index value is no datetime literal.
    InvalidIndexValue(DateTimeError),
    /// The credentials for a cloud source could not be resolved.
    Credentials(CredentialsError),
    /// The source could not be opened; `true` for a cloud source.
    SourceNotFound(bool, PolarsError),
    /// The engine failed while running the query.
    Engine(PolarsError),
}

/// The context that a failure to open a source starts with.
pub open spec fn source_context(cloud: bool) -> Seq<char> {
    if cloud {
        "File does not exist. Might need to pass --profile option: "@
    } else {
        "File does not exist: "@
    }
}

impl QueryError {
    /// A human-readable account of the error, with its cause; the engine's
    /// own text of its errors follows the context.
    pub fn message(&self) -> (r: String)
        ensures
            match self {
                QueryError::MissingIndexArgument => r@
                    == "Search failed. Either index-name or index-value is missing"@,
                QueryError::InvalidIndexValue(e) => r@ == "Failed to format index-value: "@
                    + datetime_message(*e),
                QueryError::Credentials(e) => r@ == credentials_message(*e),
                QueryError::SourceNotFound(cloud, cause) => r@ == source_context(*cloud)
                    + text_of_error(*cause),
                QueryError::Engine(cause) => r@ == text_of_error(*cause),
            },
    {
        match self {
            QueryError::MissingIndexArgument => "Search failed. Either index-name or index-value is missing".to_owned(),
            QueryError::InvalidIndexValue(e) => {
                let mut m = "Failed to format index-value: ".to_owned();
                m.append(e.message().as_str());
                m
            },
            QueryError::Credentials(e) => e.message(),
            QueryError::SourceNotFound(cloud, cause) => {
                let mut m = if *cloud {
                    "File does not exist. Might need to pass --profile option: ".to_owned()
                } else {
                    "File does not exist: ".to_owned()
                };
                let ghost head = m@;
                let text = error_text(cause);
                m.append(text.as_str());
                assert(m@ == head + text@);
                m
            },
            QueryError::Engine(cause) => error_text(cause),
        }
    }
}

/// The prefix that marks a cloud storage path.
pub open spec fn cloud_prefix() -> Seq<char> {
    "s3://"@
}

/// True for a path in cloud storage.
pub open spec fn is_cloud(path: Seq<char>) -> bool {
    cloud_prefix().len() <= path.len() && path.take(cloud_prefix().len() as int) == cloud_prefix()
}

/// The bucket and key of a cloud path: the text after the prefix, cut at its first `/`.
pub open spec fn cloud_parts(path: Seq<char>) -> (Seq<char>, Seq<char>) {
    let rest = path.skip(cloud_prefix().len() as int);
    match cut(rest, '/') {
        Some(parts) => parts,
        None => (rest, Seq::empty()),
    }
}

/// True when `p` keeps what `cols` asks for: every column when nothing is asked.
pub open spec fn projects(p: Projection, cols: Option<Vec<String>>) -> bool {
    match cols {
        None => p is All,
        Some(c) => p is Columns && views(p->Columns_0@) == first_occurrences(views(c@)),
    }
}

/// The error that the index arguments give before any data is read, if any.
pub open spec fn index_error(name: Option<String>, value: Option<String>) -> Option<QueryError> {
    match (name, value) {
        (Some(_), Some(v)) => match parse_datetime(v@) {
            Ok(_) => None,
            Err(e) => Some(QueryError::InvalidIndexValue(e)),
        },
        (None, None) => None,
        _ => Some(QueryError::MissingIndexArgument),
    }
}

/// The profile that resolution uses: the one given, else `"default"`.
pub open spec fn profile_or_default(profile: Option<String>) -> Seq<char> {
    match profile {
        Some(p) => p@,
        None => default_profile(),
    }
}

/// The text of a file that was read, if it was.
pub open spec fn file_text(file: Option<String>) -> Option<Seq<char>> {
    match file {
        Some(f) => Some(f@),
        None => None,
    }
}

/// The columns asked for, in order and each once, or every column when none are.
pub fn select_projection(requested: &Option<Vec<String>>) -> (r: Projection)
    ensures
        projects(r, *requested),
{
    match requested {
        Some(cols) => Projection::Columns(distinct_strings(cols)),
        None => Projection::All,
    }
}

/// The filter that keeps the rows whose column `index_name` equals the
/// datetime that `index_value` writes.
pub fn build_index_filter(index_name: &str, index_value: &str) -> (r: Result<IndexFilter, QueryError>)
    ensures
        match parse_datetime(index_value@) {
            Ok(p) => r is Ok && r->Ok_0.column@ == index_name@ && r->Ok_0.value == p,
            Err(e) => r is Err && r->Err_0 == QueryError::InvalidIndexValue(e),
        },
{
    match extract_date_parts(index_value) {
        Ok(value) => Ok(IndexFilter { column: index_name.to_owned(), value }),
        Err(e) => Err(QueryError::InvalidIndexValue(e)),
    }
}

/// The engine's timestamp for the datetime that `value` writes.
pub fn to_datetime_expression(value: &str) -> (r: Result<Expr, DateTimeError>)
    ensures
        parse_datetime(value@) is Ok <==> r is Ok,
        parse_datetime(value@) is Err ==> r is Err && r->Err_0 == parse_datetime(value@)->Err_0,
        r is Ok ==> r->Ok_0 == datetime_of(parse_datetime(value@)->Ok_0),
{
    let parts = extract_date_parts(value)?;
    Ok(datetime_literal(&parts))
}

/// The engine's predicate that column `index_name` equals the datetime that
/// `index_value` writes.
pub fn get_index_expr_if_needed(index_name: &str, index_value: &str) -> (r: Result<Expr, QueryError>)
    ensures
        parse_datetime(index_value@) is Ok <==> r is Ok,
        parse_datetime(index_value@) is Err ==> r is Err && r->Err_0 == QueryError::InvalidIndexValue(
            parse_datetime(index_value@)->Err_0,
        ),
        r is Ok ==> r->Ok_0 == equal_of(
            column_named(index_name@),
            datetime_of(parse_datetime(index_value@)->Ok_0),
        ),
{
    match to_datetime_expression(index_value) {
        Ok(value) => Ok(equals(column(index_name), value)),
        Err(e) => Err(QueryError::InvalidIndexValue(e)),
    }
}

/// The expressions that select the columns of a projection: `*` for all of
/// them, else one per column name, in order.
pub open spec fn projection_exprs(p: Projection) -> Seq<Expr> {
    match p {
        Projection::All => seq![column_named("*"@)],
        Projection::Columns(names) => names@.map_values(|s: String| column_named(s@)),
    }
}

/// The predicate of an index filter: its column equals its timestamp.
pub open spec fn index_predicate(f: IndexFilter) -> Expr {
    equal_of(column_named(f.column@), datetime_of(f.value))
}

/// The lazy query that a plan builds on `frame`: the filter first, if any,
/// then the projection.
pub open spec fn query_of(frame: LazyFrame, plan: QueryPlan) -> LazyFrame {
    let rows = match plan.filter {
        Some(f) => filtered(frame, index_predicate(f)),
        None => frame,
    };
    selected(rows, projection_exprs(plan.projection))
}

/// `frame` with only the columns of `columns`.
pub fn filter_columns(frame: LazyFrame, columns: &Projection) -> (r: LazyFrame)
    ensures
        r == selected(frame, projection_exprs(*columns)),
{
    match columns {
        Projection::All => {
            let mut exprs: Vec<Expr> = Vec::new();
            exprs.push(column("*"));
            assert(exprs@ =~= seq![column_named("*"@)]);
            select_frame(frame, exprs)
        },
        Projection::Columns(names) => {
            let mut exprs: Vec<Expr> = Vec::new();
            let mut i: usize = 0;
            while i < names.len()
                invariant
                    i <= names@.len(),
                    exprs@ == names@.take(i as int).map_values(|s: String| column_named(s@)),
                decreases names.len() - i,
            {
                exprs.push(column(names[i].as_str()));
                assert(exprs@ =~= names@.take(i + 1).map_values(|s: String| column_named(s@)));
                i += 1;
            }
            assert(names@.take(names@.len() as int) =~= names@);
            select_frame(frame, exprs)
        },
    }
}

/// The lazy query that `plan` builds on `frame`.
pub fn build_query(frame: LazyFrame, plan: &QueryPlan) -> (r: LazyFrame)
    ensures
        r == query_of(frame, *plan),
{
    let rows = match &plan.filter {
        Some(filter) => {
            let value = datetime_literal(&filter.value);
            let predicate = equals(column(filter.column.as_str()), value);
            filter_frame(frame, predicate)
        },
        None => frame,
    };
    filter_columns(rows, &plan.projection)
}

/// Whether `path` names an object in cloud storage.
pub fn is_cloud_path(path: &str) -> (r: bool)
    ensures
        r == is_cloud(path@),
{
    starts_with(path, "s3://")
}

impl Source {
    /// The path or URL that the engine opens.
    pub fn location(&self) -> (r: String)
        ensures
            match self {
                Source::Local(path) => r@ == path@,
                Source::Cloud(object) => r@ == cloud_prefix() + object.bucket@ + seq!['/']
                    + object.key@,
            },
    {
        match self {
            Source::Local(path) => path.clone(),
            Source::Cloud(object) => {
                let mut url = "s3://".to_owned();
                url.append(object.bucket.as_str());
                url.append("/");
                url.append(object.key.as_str());
                proof {
                    reveal_strlit("/");
                }
                url
            },
        }
    }
}

/// Where `path` is read from: a local file, or, for a cloud path, its
/// bucket and key with the credentials that `profile` resolves to from
/// `sources`.
pub fn resolve_source(path: &str, profile: Option<&str>, sources: &CredentialSources) -> (r: Result<
    Source,
    QueryError,
>)
    ensures
        !is_cloud(path@) ==> r is Ok && r->Ok_0 is Local && r->Ok_0->Local_0@ == path@,
        is_cloud(path@) ==> match resolve(
            file_text(sources.file),
            match profile {
                Some(p) => p@,
                None => default_profile(),
            },
            sources.env,
        ) {
            Err(e) => r is Err && r->Err_0 == QueryError::Credentials(e),
            Ok(c) => r is Ok && r->Ok_0 is Cloud && r->Ok_0->Cloud_0.credentials@ == c && (
            r->Ok_0->Cloud_0.bucket@, r->Ok_0->Cloud_0.key@) == cloud_parts(path@),
        },
{
    if !is_cloud_path(path) {
        return Ok(Source::Local(path.to_owned()));
    }
    let credentials = match get_credentials("aws", profile, None, sources) {
        Ok(c) => c,
        Err(e) => {
            return Err(QueryError::Credentials(e));
        },
    };
    proof {
        reveal_strlit("s3://");
    }
    let n = path.unicode_len();
    let rest = slice(path, 5, n);
    assert(rest@ =~= path@.skip(cloud_prefix().len() as int));
    let (bucket, key) = match cut_at(rest.as_str(), '/') {
        Some(parts) => parts,
        None => (rest, "".to_owned()),
    };
    proof {
        reveal_strlit("");
    }
    assert(key@ =~= cloud_parts(path@).1);
    Ok(Source::Cloud(CloudObject { bucket, key, credentials }))
}

/// Opens a lazy scan of `source`.
pub fn scan(source: &Source) -> (r: Result<LazyFrame, QueryError>)
    ensures
        r is Err ==> r->Err_0 is SourceNotFound && r->Err_0->SourceNotFound_0 == (source is Cloud),
{
    match source {
        Source::Local(path) => match scan_local(path.as_str()) {
            Ok(frame) => Ok(frame),
            Err(cause) => Err(QueryError::SourceNotFound(false, cause)),
        },
        Source::Cloud(object) => {
            let url = source.location();
            match scan_s3(url.as_str(), &object.credentials) {
                Ok(frame) => Ok(frame),
                Err(cause) => Err(QueryError::SourceNotFound(true, cause)),
            }
        },
    }
}

/// Runs `plan` on `frame`: the query of [`build_query`] is collected.
pub fn execute(frame: LazyFrame, plan: &QueryPlan) -> (r: Result<DataFrame, QueryError>)
    ensures
        r is Err ==> r->Err_0 is Engine,
{
    let query = build_query(frame, plan);
    match collect_frame(query) {
        Ok(table) => Ok(table),
        Err(cause) => Err(QueryError::Engine(cause)),
    }
}

/// The settings of one query, as a command line gives them.
#[derive(Debug)]
pub struct Processor {
    pub index_name: Option<String>,
    pub index_value: Option<String>,
    pub cols: Option<Vec<String>>,
    pub file_name: String,
    pub output_file: Option<String>,
}

/// A query over a parquet source: an optional equality filter on an index
/// column, an optional projection, and where the result goes.
pub struct ParqProcessor {
    pub index_name: Option<String>,
    pub index_value: Option<String>,
    pub cols: Option<Vec<String>>,
    pub file_name: String,
    pub profile: Option<String>,
    pub output_file: Option<String>,
}

impl ParqProcessor {
    /// A query with these settings; a leading home-directory marker of
    /// `file_name` is expanded.
    pub fn new(
        index_name: Option<String>,
        index_value: Option<String>,
        cols: Option<Vec<String>>,
        file_name: String,
        profile: Option<String>,
        output_file: Option<String>,
    ) -> (r: ParqProcessor)
        ensures
            r.index_name == index_name,
            r.index_value == index_value,
            r.cols == cols,
            r.profile == profile,
            r.output_file == output_file,
            !home_marked(file_name@) ==> r.file_name@ == file_name@,
            home_marked(file_name@) ==> (r.file_name@ == file_name@ || exists|h: Seq<char>|
                r.file_name@ == h + file_name@.drop_first()),
    {
        let file_name = if file_name.unicode_len() > 0 && file_name.as_str().get_char(0) == '~' && (
        file_name.unicode_len() == 1 || file_name.as_str().get_char(1) == '/') {
            expand_home(file_name.as_str())
        } else {
            file_name
        };
        ParqProcessor { index_name, index_value, cols, file_name, profile, output_file }
    }

    /// The filter and projection of this query; refused when only one of the
    /// index name and the index value is given, or when the index value is
    /// no datetime literal.
    pub fn plan(&self) -> (r: Result<QueryPlan, QueryError>)
        ensures
            index_error(self.index_name, self.index_value) is Some ==> r is Err && r->Err_0
                == index_error(self.index_name, self.index_value)->0,
            index_error(self.index_name, self.index_value) is None ==> r is Ok && plan_matches(
                *self,
                r->Ok_0,
            ),
    {
        let filter = match (&self.index_name, &self.index_value) {
            (Some(name), Some(value)) => Some(build_index_filter(name.as_str(), value.as_str())?),
            (None, None) => None,
            _ => {
                return Err(QueryError::MissingIndexArgument);
            },
        };
        let projection = select_projection(&self.cols);
        Ok(QueryPlan { filter, projection })
    }

    /// Resolves this query's source and opens a lazy scan of it.
    pub fn scan(&self, sources: &CredentialSources) -> (r: Result<LazyFrame, QueryError>)
        ensures
            is_cloud(self.file_name@) ==> match resolve(
                file_text(sources.file),
                profile_or_default(self.profile),
                sources.env,
            ) {
                Err(e) => r is Err && r->Err_0 == QueryError::Credentials(e),
                Ok(_) => r is Err ==> r->Err_0 is SourceNotFound && r->Err_0->SourceNotFound_0,
            },
            !is_cloud(self.file_name@) ==> (r is Err ==> r->Err_0 is SourceNotFound
                && !r->Err_0->SourceNotFound_0),
    {
        let profile: Option<&str> = match &self.profile {
            Some(p) => Some(p.as_str()),
            None => None,
        };
        let source = resolve_source(self.file_name.as_str(), profile, sources)?;
        scan(&source)
    }

    /// Builds on `frame` the lazy query that `plan`, made by [`Self::plan`], describes.
    fn plan_query(&self, plan: &QueryPlan, frame: LazyFrame) -> (r: LazyFrame)
        requires
            index_error(self.index_name, self.index_value) is None,
            plan_matches(*self, *plan),
        ensures
            r == processor_query(*self, frame),
    {
        let r = build_query(frame, plan);
        proof {
            let e = projection_exprs(plan.projection);
            assert(e =~= cols_exprs(self.cols)) by {
                if let Some(c) = self.cols {
                    let n = plan.projection->Columns_0;
                    let fo = first_occurrences(views(c@));
                    assert(views(n@).len() == n@.len());
                    assert(e.len() == cols_exprs(self.cols).len());
                    assert forall|i: int| 0 <= i < e.len() implies e[i] == cols_exprs(
                        self.cols,
                    )[i] by {
                        assert(views(n@)[i] == fo[i]);
                    }
                }
            }
        }
        r
    }

    /// The lazy query that this processor runs on `frame`: the index filter,
    /// if both index arguments are given, then the projection.
    pub fn query(&self, frame: LazyFrame) -> (r: Result<LazyFrame, QueryError>)
        ensures
            index_error(self.index_name, self.index_value) is Some ==> r is Err && r->Err_0
                == index_error(self.index_name, self.index_value)->0,
            index_error(self.index_name, self.index_value) is None ==> r is Ok && r->Ok_0
                == processor_query(*self, frame),
    {
        let plan = self.plan()?;
        Ok(self.plan_query(&plan, frame))
    }

    /// Runs the query: checks the index arguments, opens the source, builds
    /// the query of [`Self::query`] on it and collects. The first failure
    /// ends the run.
    pub fn run(&self, sources: &CredentialSources) -> (r: Result<DataFrame, QueryError>)
        ensures
            run_outcome(*self, *sources, r),
    {
        let plan = self.plan()?;
        let frame = self.scan(sources)?;
        let query = self.plan_query(&plan, frame);
        match collect_frame(query) {
            Ok(table) => Ok(table),
            Err(cause) => Err(QueryError::Engine(cause)),
        }
    }
}

/// The expressions that select the columns asked for: `*` when none are.
pub open spec fn cols_exprs(cols: Option<Vec<String>>) -> Seq<Expr> {
    match cols {
        None => seq![column_named("*"@)],
        Some(c) => first_occurrences(views(c@)).map_values(|s: Seq<char>| column_named(s)),
    }
}

/// The lazy query that `p` builds on `frame`, when its index arguments are valid.
pub open spec fn processor_query(p: ParqProcessor, frame: LazyFrame) -> LazyFrame {
    let rows = match (p.index_name, p.index_value) {
        (Some(n), Some(v)) => filtered(
            frame,
            equal_of(column_named(n@), datetime_of(parse_datetime(v@)->Ok_0)),
        ),
        _ => frame,
    };
    selected(rows, cols_exprs(p.cols))
}

/// True when `plan` is the plan of `p`.
pub open spec fn plan_matches(p: ParqProcessor, plan: QueryPlan) -> bool {
    projects(plan.projection, p.cols) && match (p.index_name, p.index_value) {
        (Some(n), Some(v)) => plan.filter is Some && plan.filter->0.column@ == n@
            && plan.filter->0.value == parse_datetime(v@)->Ok_0,
        _ => plan.filter is None,
    }
}

/// What holds of every outcome of running `p` with `sources`: the index
/// arguments fail first, then the credentials of a cloud source; any other
/// failure comes from opening the source or from the engine.
pub open spec fn run_outcome(
    p: ParqProcessor,
    sources: CredentialSources,
    r: Result<DataFrame, QueryError>,
) -> bool {
    &&& index_error(p.index_name, p.index_value) is Some ==> r is Err && r->Err_0 == index_error(
        p.index_name,
        p.index_value,
    )->0
    &&& index_error(p.index_name, p.index_value) is None && is_cloud(p.file_name@) ==> match resolve(
        file_text(sources.file),
        profile_or_default(p.profile),
        sources.env,
    ) {
        Err(e) => r is Err && r->Err_0 == QueryError::Credentials(e),
        Ok(_) => r is Err ==> (r->Err_0 is SourceNotFound && r->Err_0->SourceNotFound_0)
            || r->Err_0 is Engine,
    }
    &&& index_error(p.index_name, p.index_value) is None && !is_cloud(p.file_name@) ==> (r is Err
        ==> (r->Err_0 is SourceNotFound && !r->Err_0->SourceNotFound_0) || r->Err_0 is Engine)
}

/// The kinds of query processor.
pub enum Processors {
    Parq(ParqProcessor),
}

impl Processors {
    /// The processor of `execution_type` for the query that `settings`
    /// describes; `"parq"` is the one kind known.
    pub fn new(execution_type: &str, settings: Processor, profile: Option<String>) -> (r: Option<
        Processors,
    >)
        ensures
            execution_type@ != "parq"@ ==> r is None,
            execution_type@ == "parq"@ ==> r is Some && match r->0 {
                Processors::Parq(p) => p.index_name == settings.index_name && p.index_value
                    == settings.index_value && p.cols == settings.cols && p.profile == profile
                    && p.output_file == settings.output_file && (!home_marked(settings.file_name@)
                    ==> p.file_name@ == settings.file_name@) && (home_marked(settings.file_name@)
                    ==> (p.file_name@ == settings.file_name@ || exists|h: Seq<char>|
                    p.file_name@ == h + settings.file_name@.drop_first())),
            },
    {
        if !same_text(execution_type, "parq") {
            return None;
        }
        let Processor { index_name, index_value, cols, file_name, output_file } = settings;
        Some(
            Processors::Parq(
                ParqProcessor::new(index_name, index_value, cols, file_name, profile, output_file),
            ),
        )
    }

    /// Runs the processor's query.
    pub fn run(&self, sources: &CredentialSources) -> (r: Result<DataFrame, QueryError>)
        ensures
            match self {
                Processors::Parq(p) => run_outcome(*p, *sources, r),
            },
    {
        match self {
            Processors::Parq(p) => p.run(sources),
        }
    }
}

} // verus!
