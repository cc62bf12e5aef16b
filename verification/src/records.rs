//! The normalized output records: publications, chapters, pages, listing
//! results, deep links, and the error taxonomy.
//!
//! Chapter and volume numbers may be fractional; they are held in exact
//! fixed-point thousandths (`12.5` is `12500`). Timestamps are seconds since
//! the epoch.

use vstd::prelude::*;
use crate::text;

verus! {

/// How many entries a full listing page carries; a response of exactly this
/// many entries signals that more pages may follow.
pub const PAGE_SIZE: usize = 50;

/// Publication status vocabulary, normalized.
#[derive(Clone, Copy, PartialEq, Eq, Structural, Debug)]
pub enum MangaStatus {
    Unknown,
    Ongoing,
    Completed,
    Hiatus,
    Cancelled,
}

/// Content rating, normalized. Sources handled here carry no rating markup,
/// so records default to `Safe`.
#[derive(Clone, Copy, PartialEq, Eq, Structural, Debug)]
pub enum ContentRating {
    Safe,
    Suggestive,
    Nsfw,
}

/// Reading direction of a publication.
#[derive(Clone, Copy, PartialEq, Eq, Structural, Debug)]
pub enum ReadingDirection {
    LeftToRight,
    RightToLeft,
    VerticalScroll,
    /// The source gave no usable hint; the client applies its own default.
    SourceDefault,
}

/// A normalized publication record, rebuilt fresh on every parse.
pub struct Manga {
    /// Identifier derived deterministically from the source URL.
    pub id: String,
    /// Cover image URL.
    pub cover: String,
    pub title: String,
    pub author: String,
    pub artist: String,
    pub description: String,
    /// Canonical URL of the publication on its source.
    pub url: String,
    /// Category-tag names.
    pub categories: Vec<String>,
    pub status: MangaStatus,
    pub nsfw: ContentRating,
    pub viewer: ReadingDirection,
}

/// A normalized chapter record.
pub struct Chapter {
    /// Identifier derived from the chapter URL relative to the publication.
    pub id: String,
    pub title: String,
    /// Volume number in thousandths, when the source states one.
    pub volume: Option<i64>,
    /// Chapter number in thousandths; a best-effort reading-order proxy.
    pub chapter: i64,
    /// Update time, seconds since the epoch.
    pub date_updated: i64,
    /// Source URL of the chapter.
    pub url: String,
    /// Language tag.
    pub lang: String,
}

/// One page of reading content: either an image URL or an opaque token that
/// the caller resolves later.
pub struct Page {
    /// Zero-based position.
    pub index: usize,
    pub url: String,
}

/// A listing response: the records of one page, and whether more may follow.
pub struct MangaPageResult {
    pub manga: Vec<Manga>,
    pub has_more: bool,
}

/// An external URL resolved back into the internal identifier space.
pub struct DeepLink {
    pub manga: Option<Manga>,
    pub chapter: Option<Chapter>,
}

/// Failures that abort a parse. Failures of single list entries are not
/// here: such an entry is dropped and the batch continues.
#[derive(Clone, Copy, PartialEq, Eq, Structural, Debug)]
pub enum SourceError {
    /// The top-level content container of a whole document is absent.
    ParseFailure,
    /// A deep link carries no usable identifier.
    NotFound,
}

/// The error a parse raises when a document's top-level container is absent.
pub fn create_parsing_error() -> (r: SourceError)
    ensures
        r == SourceError::ParseFailure,
{
    SourceError::ParseFailure
}

/// Wrap one listing page's records: `has_more` exactly when the page is full,
/// that is, when it carries `PAGE_SIZE` records.
pub fn create_manga_page_result(mangas: Vec<Manga>) -> (r: MangaPageResult)
    ensures
        r.has_more == (mangas@.len() == PAGE_SIZE),
        r.manga == mangas,
{
    let has_more = mangas.len() == PAGE_SIZE;
    MangaPageResult { manga: mangas, has_more }
}

/// The resolved fields of a full publication record, as the adapters' specs
/// state them.
pub struct MangaFields {
    pub id: Seq<char>,
    pub cover: Seq<char>,
    pub title: Seq<char>,
    pub description: Seq<char>,
    pub url: Seq<char>,
    pub categories: Seq<Seq<char>>,
    pub status: MangaStatus,
    pub viewer: ReadingDirection,
}

/// A full record carries the resolved fields; author and artist stay empty
/// and the rating is the default, as these sources state none of them.
pub open spec fn manga_matches_fields(m: Manga, f: MangaFields) -> bool {
    &&& m.id@ == f.id
    &&& m.cover@ == f.cover
    &&& m.title@ == f.title
    &&& m.author@ == Seq::<char>::empty()
    &&& m.artist@ == Seq::<char>::empty()
    &&& m.description@ == f.description
    &&& m.url@ == f.url
    &&& text::strings_match(m.categories@, f.categories)
    &&& m.status == f.status
    &&& m.nsfw == ContentRating::Safe
    &&& m.viewer == f.viewer
}

/// The resolved fields of a chapter record.
pub struct ChapterFields {
    pub id: Seq<char>,
    pub title: Seq<char>,
    pub volume: Option<int>,
    pub chapter: int,
    pub date_updated: int,
    pub url: Seq<char>,
}

/// A chapter record carries the resolved fields; these sources publish in
/// one language, so the tag is fixed.
pub open spec fn chapter_matches_fields(c: Chapter, f: ChapterFields) -> bool {
    &&& c.id@ == f.id
    &&& c.title@ == f.title
    &&& (match f.volume {
        Some(v) => c.volume matches Some(cv) && cv == v,
        None => c.volume is None,
    })
    &&& c.chapter == f.chapter
    &&& c.date_updated == f.date_updated
    &&& c.url@ == f.url
    &&& c.lang@ == "ru"@
}

pub open spec fn chapters_match(cs: Seq<Chapter>, fs: Seq<ChapterFields>) -> bool {
    cs.len() == fs.len() && (forall|k: int|
        0 <= k < cs.len() ==> chapter_matches_fields(#[trigger] cs[k], fs[k]))
}

} // verus!
