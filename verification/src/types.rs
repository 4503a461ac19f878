//! Shared types: export formats, provider and model kinds, pagination and
//! sort order, and the library's constants.

use vstd::prelude::*;

verus! {

/// Default number of memory blocks retrieved by a query.
pub const DEFAULT_MAX_BLOCKS: usize = 100;
/// Default context window size in tokens.
pub const DEFAULT_CONTEXT_TOKENS: usize = 8000;
/// Default embedding dimension.
pub const DEFAULT_EMBEDDING_DIM: usize = 1536;
/// Default daily token budget.
pub const DEFAULT_DAILY_TOKEN_LIMIT: u32 = 100_000;
/// Default monthly token budget.
pub const DEFAULT_MONTHLY_TOKEN_LIMIT: u32 = 2_000_000;
/// Largest export file, in bytes.
pub const MAX_EXPORT_FILE_SIZE: usize = 104857600;
/// Largest import file, in bytes.
pub const MAX_IMPORT_FILE_SIZE: usize = 52428800;
/// Default page size.
pub const DEFAULT_PAGE_SIZE: usize = 50;
/// Largest page size.
pub const MAX_PAGE_SIZE: usize = 1000;

/// Export format options.
#[derive(Debug, Clone, Copy, PartialEq, Eq, Structural)]
pub enum ExportFormat {
    Json,
    Csv,
    Yaml,
    Markdown,
}

impl ExportFormat {
    /// The lower-case name of the format.
    pub fn as_str(&self) -> (s: &'static str)
        ensures
            s@ == match *self {
                ExportFormat::Json => "json"@,
                ExportFormat::Csv => "csv"@,
                ExportFormat::Yaml => "yaml"@,
                ExportFormat::Markdown => "markdown"@,
            },
    {
        match self {
            ExportFormat::Json => "json",
            ExportFormat::Csv => "csv",
            ExportFormat::Yaml => "yaml",
            ExportFormat::Markdown => "markdown",
        }
    }
}

/// LLM provider kinds.
#[derive(Debug, Clone, Copy, PartialEq, Eq, Structural)]
pub enum ProviderType {
    OpenAI,
    Anthropic,
    Google,
    Azure,
    Local,
}

impl ProviderType {
    /// The lower-case name of the provider.
    pub fn as_str(&self) -> (s: &'static str)
        ensures
            s@ == match *self {
                ProviderType::OpenAI => "openai"@,
                ProviderType::Anthropic => "anthropic"@,
                ProviderType::Google => "google"@,
                ProviderType::Azure => "azure"@,
                ProviderType::Local => "local"@,
            },
    {
        match self {
            ProviderType::OpenAI => "openai",
            ProviderType::Anthropic => "anthropic",
            ProviderType::Google => "google",
            ProviderType::Azure => "azure",
            ProviderType::Local => "local",
        }
    }
}

/// Model kinds.
#[derive(Debug, Clone, Copy, PartialEq, Eq, Structural)]
pub enum ModelType {
    Language,
    Embedding,
    Image,
    Audio,
}

/// Sort order for queries; descending by default.
#[derive(Debug, Clone, Copy, PartialEq, Eq, Structural)]
pub enum SortOrder {
    Ascending,
    Descending,
}

impl Default for SortOrder {
    fn default() -> (s: SortOrder)
        ensures
            s == SortOrder::Descending,
    {
        SortOrder::Descending
    }
}

/// Pagination parameters: a zero-based page, a page size, and an optional
/// offset that overrides the page.
#[derive(Debug, Clone, Copy, PartialEq, Eq, Structural)]
pub struct Pagination {
    pub page: usize,
    pub page_size: usize,
    pub offset: Option<usize>,
}

impl Default for Pagination {
    fn default() -> (p: Pagination)
        ensures
            p.page == 0,
            p.page_size == DEFAULT_PAGE_SIZE,
            p.offset is None,
    {
        Pagination { page: 0, page_size: DEFAULT_PAGE_SIZE, offset: None }
    }
}

impl Pagination {
    /// The offset for queries: the explicit offset, else page times page
    /// size.
    pub fn get_offset(&self) -> (o: usize)
        requires
            self.offset is None ==> self.page * self.page_size <= usize::MAX,
        ensures
            o == match self.offset {
                Some(off) => off as int,
                None => self.page * self.page_size,
            },
    {
        match self.offset {
            Some(off) => off,
            None => self.page * self.page_size,
        }
    }

    /// Pagination for a given page.
    pub fn page(page: usize, page_size: usize) -> (p: Pagination)
        ensures
            p.page == page,
            p.page_size == page_size,
            p.offset is None,
    {
        Pagination { page, page_size, offset: None }
    }

    /// Pagination from a direct offset; the page is the offset divided by
    /// the page size.
    pub fn offset(offset: usize, page_size: usize) -> (p: Pagination)
        requires
            page_size > 0,
        ensures
            p.page == offset / page_size,
            p.page_size == page_size,
            p.offset == Some(offset),
    {
        Pagination { page: offset / page_size, page_size, offset: Some(offset) }
    }
}

/// Reading back an explicit offset: pagination built from an offset reports
/// that offset, and its page is the page holding it.
pub proof fn law_offset_roundtrip(offset: usize, page_size: usize, p: Pagination)
    requires
        page_size > 0,
        p.page == offset / page_size,
        p.page_size == page_size,
        p.offset == Some(offset),
    ensures
        p.page * p.page_size <= offset < (p.page + 1) * p.page_size,
{
    vstd::arithmetic::div_mod::lemma_fundamental_div_mod(offset as int, page_size as int);
    vstd::arithmetic::mul::lemma_mul_is_distributive_add_other_way(page_size as int, p.page as int, 1);
}

/// A span of time, as milliseconds since the Unix epoch, bounds included.
#[derive(Debug, Clone, Copy, PartialEq, Eq, Structural)]
pub struct TimeRange {
    pub start: i64,
    pub end: i64,
}

/// Milliseconds in a day and in an hour.
pub const DAY_MS: i64 = 86_400_000;
pub const HOUR_MS: i64 = 3_600_000;

impl TimeRange {
    /// Whether a time falls within the range, bounds included.
    pub fn contains(&self, timestamp: i64) -> (b: bool)
        ensures
            b == (self.start <= timestamp && timestamp <= self.end),
    {
        timestamp >= self.start && timestamp <= self.end
    }

    /// The range of `count` units of `unit_ms` milliseconds ending at `end`,
    /// or `None` where its start does not fit the time scale.
    pub fn ending_at(end: i64, count: i64, unit_ms: i64) -> (r: Option<TimeRange>)
        requires
            unit_ms > 0,
        ensures
            match r {
                Some(t) => t.end == end && t.start == end - count * unit_ms,
                None => !(i64::MIN <= count * unit_ms <= i64::MAX && i64::MIN <= end - count * unit_ms <= i64::MAX),
            },
    {
        match count.checked_mul(unit_ms) {
            Some(span) => match end.checked_sub(span) {
                Some(start) => Some(TimeRange { start, end }),
                None => None,
            },
            None => None,
        }
    }

    /// The last `days` days up to now. The end is the clock's reading; the
    /// start lies `days` days before it. Where that start does not fit the
    /// time scale, as where chrono's subtraction overflows, there is none.
    pub fn last_days(days: i64) -> (r: Option<TimeRange>)
        ensures
            r matches Some(t) ==> t.start == t.end - days * DAY_MS,
    {
        let now = crate::clock::utc_now_millis();
        TimeRange::ending_at(now, days, DAY_MS)
    }

    /// The last `hours` hours up to now, as `last_days` does with days.
    pub fn last_hours(hours: i64) -> (r: Option<TimeRange>)
        ensures
            r matches Some(t) ==> t.start == t.end - hours * HOUR_MS,
    {
        let now = crate::clock::utc_now_millis();
        TimeRange::ending_at(now, hours, HOUR_MS)
    }
}

} // verus!
