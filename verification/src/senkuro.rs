//! Site adapter for the card-article source: search result cards,
//! publication details with labelled stats, chapter cards with titled
//! volume/chapter text, reader scripts with embedded page data, and the
//! offset-paged browse URL.

use vstd::prelude::*;
use crate::dom::Node;
use crate::dom;
use crate::foreign;
use crate::helpers;
use crate::records::Chapter;
use crate::records::ChapterFields;
use crate::records::ContentRating;
use crate::records::Manga;
use crate::records::MangaFields;
use crate::records::MangaStatus;
use crate::records::Page;
use crate::records::ReadingDirection;
use crate::records::SourceError;
use crate::records::chapter_matches_fields;
use crate::records::chapters_match;
use crate::records::manga_matches_fields;
use crate::dates;
use crate::filters::Filter;
use crate::filters::FilterType;
use crate::filters::FilterValue;
use crate::sorting::Sorting;
use crate::sorting;
use crate::text;
use crate::urlenc;

verus! {

/// The compiled-in base URL of this source.
pub fn default_base_url() -> (r: &'static str)
    ensures
        r@ == "https://senkuro.me"@,
{
    "https://senkuro.me"
}

/// The browse endpoint every search URL starts with.
pub fn search_base_url() -> (r: &'static str)
    ensures
        r@ == "https://senkuro.me/browse/manga/"@,
{
    "https://senkuro.me/browse/manga/"
}

/// The main content container of a details document; its absence fails the
/// whole parse.
pub fn get_manga_page_main_node<'a>(html: &'a Node) -> (r: Result<&'a Node, SourceError>)
    ensures
        match r {
            Ok(n) => html.sel("div.leftContent"@).len() > 0 && *n == html.sel(
                "div.leftContent"@,
            )[html.sel("div.leftContent"@).len() - 1],
            Err(e) => html.sel("div.leftContent"@).len() == 0 && e == SourceError::ParseFailure,
        },
{
    match html.select_last("div.leftContent") {
        Some(n) => Ok(n),
        None => Err(crate::records::create_parsing_error()),
    }
}

/// A tag text that carries no information: empty, or nothing but digits,
/// dots and commas (a rating or a count, not a category).
pub open spec fn is_noise_tag(t: Seq<char>) -> bool {
    t.len() == 0 || (forall|k: int|
        0 <= k < t.len() ==> text::is_digit_char(#[trigger] t[k]) || t[k] == '.' || t[k] == ',')
}

fn tag_is_noise(t: &Vec<char>) -> (r: bool)
    ensures
        r == is_noise_tag(t@),
{
    if t.len() == 0 {
        return true;
    }
    let mut i: usize = 0;
    while i < t.len()
        invariant
            i <= t@.len(),
            forall|k: int|
                0 <= k < i ==> text::is_digit_char(#[trigger] t@[k]) || t@[k] == '.' || t@[k]
                    == ',',
        decreases t@.len() - i,
    {
        let c = t[i];
        if !(text::char_is_digit(c) || c == '.' || c == ',') {
            return false;
        }
        i += 1;
    }
    true
}

/// The category names of a search card: the trimmed tag texts under the
/// card's status block, noise entries dropped; no block, no categories.
pub open spec fn card_categories_from(tags: Seq<Node>, i: int) -> Seq<Seq<char>>
    decreases tags.len() - i,
{
    if i < 0 || i >= tags.len() {
        Seq::empty()
    } else {
        let t = text::trimmed(tags[i].text@);
        if is_noise_tag(t) {
            card_categories_from(tags, i + 1)
        } else {
            seq![t] + card_categories_from(tags, i + 1)
        }
    }
}

/// The identifier a search-card link derives to: the target with the
/// publication path prefix and the chapter-list suffix stripped, and
/// surrounding slashes dropped.
pub open spec fn search_id_of(href: Seq<char>) -> Seq<char> {
    text::trimmed_char_both(
        text::strip_suffix_rep(text::strip_prefix_rep(href, "/manga/"@), "/chapters"@),
        '/',
    )
}

/// The fields one search card contributes.
pub struct SearchFields {
    pub id: Seq<char>,
    pub cover: Seq<char>,
    pub title: Seq<char>,
    pub url: Seq<char>,
    pub categories: Seq<Seq<char>>,
}

/// What one search card yields: nothing without its link, the link's image,
/// and a title heading; otherwise the derived identifier, the cover, the
/// title, the rejoined URL, and the filtered categories.
pub open spec fn search_fields(card: Node, base: Seq<char>) -> Option<SearchFields> {
    let links = card.sel("a"@);
    if links.len() == 0 {
        None
    } else {
        let a = links[links.len() - 1];
        match a.attr_of("href"@) {
            None => None,
            Some(href) => {
                let imgs = a.sel("img"@);
                if imgs.len() == 0 {
                    None
                } else {
                    match imgs[imgs.len() - 1].attr_of("src"@) {
                        None => None,
                        Some(cover) => {
                            let titles = card.sel("h3.card-title"@);
                            if titles.len() == 0 {
                                None
                            } else {
                                let id = search_id_of(href);
                                let blocks = card.sel("div.card-status__down"@);
                                let categories = if blocks.len() == 0 {
                                    Seq::empty()
                                } else {
                                    card_categories_from(
                                        blocks[blocks.len() - 1].sel("span.tag"@),
                                        0,
                                    )
                                };
                                Some(
                                    SearchFields {
                                        id,
                                        cover,
                                        title: titles[titles.len() - 1].text@,
                                        url: base + "/"@ + id,
                                        categories,
                                    },
                                )
                            }
                        },
                    }
                }
            },
        }
    }
}

/// The records contributed by the search cards `cards[i..]`; a card missing
/// a required field is dropped and the batch continues.
pub open spec fn search_outputs_from(cards: Seq<Node>, base: Seq<char>, i: int) -> Seq<
    SearchFields,
>
    decreases cards.len() - i,
{
    if i < 0 || i >= cards.len() {
        Seq::empty()
    } else {
        match search_fields(cards[i], base) {
            Some(f) => seq![f] + search_outputs_from(cards, base, i + 1),
            None => search_outputs_from(cards, base, i + 1),
        }
    }
}

/// A search record carries the card's fields; the rest is this source's
/// documented defaults, reading right to left.
pub open spec fn manga_matches_search(m: Manga, f: SearchFields) -> bool {
    &&& m.id@ == f.id
    &&& m.cover@ == f.cover
    &&& m.title@ == f.title
    &&& m.url@ == f.url
    &&& text::strings_match(m.categories@, f.categories)
    &&& m.author@ == Seq::<char>::empty()
    &&& m.artist@ == Seq::<char>::empty()
    &&& m.description@ == Seq::<char>::empty()
    &&& m.status == MangaStatus::Unknown
    &&& m.nsfw == ContentRating::Safe
    &&& m.viewer == ReadingDirection::RightToLeft
}

pub open spec fn mangas_match_search(ms: Seq<Manga>, fs: Seq<SearchFields>) -> bool {
    ms.len() == fs.len() && (forall|k: int|
        0 <= k < ms.len() ==> manga_matches_search(#[trigger] ms[k], fs[k]))
}

fn card_categories(block: &Node, i: usize) -> (r: Vec<String>)
    requires
        i <= block.sel("span.tag"@).len(),
    ensures
        text::strings_match(r@, card_categories_from(block.sel("span.tag"@), i as int)),
    decreases block.sel("span.tag"@).len() - i,
{
    let count = block.select_count("span.tag");
    if i >= count {
        Vec::new()
    } else {
        let tag = block.select_nth("span.tag", i);
        let tv = text::str_chars(tag.text.as_str());
        let t = text::trim(&tv);
        if tag_is_noise(&t) {
            card_categories(block, i + 1)
        } else {
            let mut r = card_categories(block, i + 1);
            r.insert(0, foreign::string_from_chars(&t));
            proof {
                let cs = card_categories_from(block.sel("span.tag"@), i as int);
                assert(forall|k: int| 1 <= k < cs.len() ==> cs[k] == cs.skip(1)[k - 1]);
            }
            r
        }
    }
}

fn search_record(card: &Node, base: &str) -> (r: Option<Manga>)
    ensures
        match r {
            Some(m) => search_fields(*card, base@) is Some && manga_matches_search(
                m,
                search_fields(*card, base@)->0,
            ),
            None => search_fields(*card, base@) is None,
        },
{
    let a = match card.select_last("a") {
        Some(n) => n,
        None => {
            return None;
        },
    };
    let href = match a.attr("href") {
        Some(h) => h,
        None => {
            return None;
        },
    };
    let img = match a.select_last("img") {
        Some(n) => n,
        None => {
            return None;
        },
    };
    let cover = match img.attr("src") {
        Some(s) => s.clone(),
        None => {
            return None;
        },
    };
    let title = match card.select_last("h3.card-title") {
        Some(n) => n.text.clone(),
        None => {
            return None;
        },
    };
    let hrefv = text::str_chars(href.as_str());
    let manga_pre = text::str_chars("/manga/");
    let chapters_suf = text::str_chars("/chapters");
    let stripped = text::strip_prefix_all(&hrefv, &manga_pre);
    let stripped = text::strip_suffix_all(&stripped, &chapters_suf);
    let idv = text::trim_char_both(&stripped, '/');
    let id = foreign::string_from_chars(&idv);
    let categories = match card.select_last("div.card-status__down") {
        Some(block) => card_categories(block, 0),
        None => Vec::new(),
    };
    let url = helpers::get_manga_url(base, id.as_str());
    Some(
        Manga {
            id,
            cover,
            title,
            author: String::new(),
            artist: String::new(),
            description: String::new(),
            url,
            categories,
            status: MangaStatus::Unknown,
            nsfw: ContentRating::Safe,
            viewer: ReadingDirection::RightToLeft,
        },
    )
}

fn search_records(doc: &Node, base: &str, i: usize) -> (r: Vec<Manga>)
    requires
        i <= doc.sel("article.card-main"@).len(),
    ensures
        mangas_match_search(
            r@,
            search_outputs_from(doc.sel("article.card-main"@), base@, i as int),
        ),
    decreases doc.sel("article.card-main"@).len() - i,
{
    let count = doc.select_count("article.card-main");
    if i >= count {
        Vec::new()
    } else {
        let card = doc.select_nth("article.card-main", i);
        match search_record(card, base) {
            Some(m) => {
                let mut r = search_records(doc, base, i + 1);
                r.insert(0, m);
                proof {
                    let fs = search_outputs_from(doc.sel("article.card-main"@), base@, i as int);
                    assert(forall|k: int| 1 <= k < fs.len() ==> fs[k] == fs.skip(1)[k - 1]);
                }
                r
            },
            None => search_records(doc, base, i + 1),
        }
    }
}

/// Parse a search-results document: one record per complete card, cards
/// missing required fields dropped. The batch itself always succeeds, even
/// empty.
pub fn parse_search_results(html: &Node, base_url: &str) -> (r: Result<Vec<Manga>, SourceError>)
    ensures
        match r {
            Ok(ms) => mangas_match_search(
                ms@,
                search_outputs_from(html.sel("article.card-main"@), base_url@, 0),
            ),
            Err(_) => false,
        },
{
    Ok(search_records(html, base_url, 0))
}

/// The status a lower-cased status phrase maps to: completion first, then
/// ongoing, then paused; anything else is unknown.
pub open spec fn senkuro_status_of(lowered: Seq<char>) -> MangaStatus {
    if text::contains_sub(lowered, "завершён"@) {
        MangaStatus::Completed
    } else if text::contains_sub(lowered, "онгоинг"@) {
        MangaStatus::Ongoing
    } else if text::contains_sub(lowered, "приостановлен"@) {
        MangaStatus::Hiatus
    } else {
        MangaStatus::Unknown
    }
}

/// Map an already lower-cased status phrase of this source onto the
/// normalized vocabulary.
pub fn status_from_text(lowered: &str) -> (r: MangaStatus)
    ensures
        r == senkuro_status_of(lowered@),
{
    let lv = text::str_chars(lowered);
    let completed = text::str_chars("завершён");
    let ongoing = text::str_chars("онгоинг");
    let paused = text::str_chars("приостановлен");
    if text::has_sub(&lv, &completed) {
        MangaStatus::Completed
    } else if text::has_sub(&lv, &ongoing) {
        MangaStatus::Ongoing
    } else if text::has_sub(&lv, &paused) {
        MangaStatus::Hiatus
    } else {
        MangaStatus::Unknown
    }
}

/// The status a details document resolves to: scan the stats items for the
/// first whose label names the title status and that carries a value; its
/// lower-cased value decides. No such item leaves the status unknown.
pub open spec fn status_scan(items: Seq<Node>, i: int) -> MangaStatus
    decreases items.len() - i,
{
    if i < 0 || i >= items.len() {
        MangaStatus::Unknown
    } else {
        let labels = items[i].sel(".project-stats__text"@);
        if labels.len() > 0 && text::contains_sub(
            labels[labels.len() - 1].text@,
            "Статус тайтла"@,
        ) {
            let names = items[i].sel(".project-stats__name"@);
            if names.len() == 0 {
                status_scan(items, i + 1)
            } else {
                senkuro_status_of(foreign::lower_of(names[names.len() - 1].text@))
            }
        } else {
            status_scan(items, i + 1)
        }
    }
}

fn doc_status(doc: &Node, i: usize) -> (r: MangaStatus)
    requires
        i <= doc.sel(".project-stats__item"@).len(),
    ensures
        r == status_scan(doc.sel(".project-stats__item"@), i as int),
    decreases doc.sel(".project-stats__item"@).len() - i,
{
    let count = doc.select_count(".project-stats__item");
    if i >= count {
        MangaStatus::Unknown
    } else {
        let item = doc.select_nth(".project-stats__item", i);
        let mut label_matches = false;
        if let Some(label) = item.select_last(".project-stats__text") {
            let lv = text::str_chars(label.text.as_str());
            let pat = text::str_chars("Статус тайтла");
            label_matches = text::has_sub(&lv, &pat);
        }
        if label_matches {
            match item.select_last(".project-stats__name") {
                Some(name) => {
                    let lowered = foreign::lowercase(name.text.as_str());
                    status_from_text(lowered.as_str())
                },
                None => doc_status(doc, i + 1),
            }
        } else {
            doc_status(doc, i + 1)
        }
    }
}

/// A detail tag that carries no information: empty or all digits.
pub open spec fn is_numeric_tag(t: Seq<char>) -> bool {
    t.len() == 0 || text::all_digits(t)
}

/// The category names of a details document: the trimmed tag-link texts,
/// numeric entries dropped.
pub open spec fn detail_categories_from(tags: Seq<Node>, i: int) -> Seq<Seq<char>>
    decreases tags.len() - i,
{
    if i < 0 || i >= tags.len() {
        Seq::empty()
    } else {
        let t = text::trimmed(tags[i].text@);
        if is_numeric_tag(t) {
            detail_categories_from(tags, i + 1)
        } else {
            seq![t] + detail_categories_from(tags, i + 1)
        }
    }
}

fn detail_categories(doc: &Node, i: usize) -> (r: Vec<String>)
    requires
        i <= doc.sel(".project-tags a > span"@).len(),
    ensures
        text::strings_match(
            r@,
            detail_categories_from(doc.sel(".project-tags a > span"@), i as int),
        ),
    decreases doc.sel(".project-tags a > span"@).len() - i,
{
    let count = doc.select_count(".project-tags a > span");
    if i >= count {
        Vec::new()
    } else {
        let tag = doc.select_nth(".project-tags a > span", i);
        let tv = text::str_chars(tag.text.as_str());
        let t = text::trim(&tv);
        let keep = if t.len() == 0 {
            false
        } else {
            !text::check_all_digits(&t)
        };
        if keep {
            let mut r = detail_categories(doc, i + 1);
            r.insert(0, foreign::string_from_chars(&t));
            proof {
                let cs = detail_categories_from(doc.sel(".project-tags a > span"@), i as int);
                assert(forall|k: int| 1 <= k < cs.len() ==> cs[k] == cs.skip(1)[k - 1]);
            }
            r
        } else {
            detail_categories(doc, i + 1)
        }
    }
}

/// What a details document yields for the publication `id`: every field by
/// its own chain, missing pieces degrading to empty values, never to a
/// failure.
pub open spec fn spec_parse_manga(doc: Node, id: Seq<char>, base: Seq<char>) -> MangaFields {
    let posters = doc.sel(".project-poster img"@);
    let cover = if posters.len() == 0 {
        Seq::<char>::empty()
    } else {
        match posters[posters.len() - 1].attr_of("src"@) {
            Some(s) => s,
            None => Seq::<char>::empty(),
        }
    };
    let titles = doc.sel("h1.caption.caption-size-l"@);
    let title = if titles.len() == 0 {
        Seq::<char>::empty()
    } else {
        titles[titles.len() - 1].text@
    };
    MangaFields {
        id,
        cover,
        title,
        description: text::join_char_from(
            dom::trimmed_texts_from(doc.sel(".text-expander__collapse p"@), 0),
            '\n',
            0,
        ),
        url: base + "/"@ + id,
        categories: detail_categories_from(doc.sel(".project-tags a > span"@), 0),
        status: status_scan(doc.sel(".project-stats__item"@), 0),
        viewer: ReadingDirection::RightToLeft,
    }
}

/// Parse a details document into the full record of the publication `id`.
/// Every field degrades gracefully: a missing poster, heading, tag list or
/// stats item leaves its field empty or unknown rather than failing.
pub fn parse_manga(html: &Node, id: String, base_url: &str) -> (r: Result<Manga, SourceError>)
    ensures
        match r {
            Ok(m) => manga_matches_fields(m, spec_parse_manga(*html, id@, base_url@)),
            Err(_) => false,
        },
{
    let cover = match html.select_last(".project-poster img") {
        Some(img) => match img.attr("src") {
            Some(s) => s.clone(),
            None => String::new(),
        },
        None => String::new(),
    };
    let title = match html.select_last("h1.caption.caption-size-l") {
        Some(n) => n.text.clone(),
        None => String::new(),
    };
    let paras = dom::trimmed_texts(html, ".text-expander__collapse p", 0);
    let descv = text::join_char(&paras, '\n');
    let description = foreign::string_from_chars(&descv);
    let categories = detail_categories(html, 0);
    let status = doc_status(html, 0);
    let url = helpers::get_manga_url(base_url, id.as_str());
    Ok(
        Manga {
            id,
            cover,
            title,
            author: String::new(),
            artist: String::new(),
            description,
            url,
            categories,
            status,
            nsfw: ContentRating::Safe,
            viewer: ReadingDirection::RightToLeft,
        },
    )
}

/// A whole-number token of the size the fixed-point range admits: one to
/// twelve digits.
pub open spec fn is_vol_token(t: Seq<char>) -> bool {
    1 <= t.len() <= 12 && text::all_digits(t)
}

/// The first whole-number token among `toks[i..]`, with its position.
pub open spec fn uint_scan(toks: Seq<Seq<char>>, i: int) -> Option<(int, int)>
    decreases toks.len() - i,
{
    if i < 0 || i >= toks.len() {
        None
    } else if is_vol_token(toks[i]) {
        Some((text::dec_value(toks[i]), i))
    } else {
        uint_scan(toks, i + 1)
    }
}

/// The volume and chapter numbers a chapter heading carries: after dropping
/// the volume and chapter words, the first whole-number token is the volume
/// and the next one the chapter, in fixed-point thousandths.
pub open spec fn volume_chapter_of(full_title: Seq<char>) -> (Option<int>, Option<int>) {
    let cleaned = text::remove_sub_from(
        text::remove_sub_from(full_title, "Том"@, 0),
        "Глава"@,
        0,
    );
    let toks = text::split_ws_from(cleaned, 0);
    match uint_scan(toks, 0) {
        None => (None, None),
        Some((v, j)) => match uint_scan(toks, j + 1) {
            None => (Some(v * 1000), None),
            Some((c, _)) => (Some(v * 1000), Some(c * 1000)),
        },
    }
}

/// The identifier a chapter link derives to: the piece after the chapter
/// path marker, up to the next slash; nothing without the marker.
pub open spec fn senkuro_chapter_id_of(href: Seq<char>) -> Option<Seq<char>> {
    match text::find_from(href, "/chapters/"@, 0) {
        None => None,
        Some(k) => {
            let rest = href.skip(k + 10);
            let piece = match text::find_from(rest, "/chapters/"@, 0) {
                Some(j) => rest.take(j),
                None => rest,
            };
            Some(piece.take(text::find_char_from(piece, '/', 0)))
        },
    }
}

/// What one chapter card yields: nothing without its link, a derivable
/// identifier, and a heading; otherwise the identifier, the heading's last
/// angle-separated piece as title, the heading's volume and chapter numbers,
/// the date of the card's last time element (epoch fallback), and the
/// chapter URL rejoined under the publication.
pub open spec fn senkuro_chapter_fields(
    row: Node,
    manga_id: Seq<char>,
    base: Seq<char>,
    now: int,
) -> Option<ChapterFields> {
    let links = row.sel("a.card-chapter__link"@);
    if links.len() == 0 {
        None
    } else {
        let link = links[links.len() - 1];
        match link.attr_of("href"@) {
            None => None,
            Some(href) => match senkuro_chapter_id_of(href) {
                None => None,
                Some(id) => {
                    let h3s = link.sel("h3"@);
                    if h3s.len() == 0 {
                        None
                    } else {
                        let full = h3s[h3s.len() - 1].text@;
                        let pieces = text::split_char_from(full, '>', 0);
                        let title = text::trimmed(pieces[pieces.len() - 1]);
                        let vc = volume_chapter_of(full);
                        let spans = row.sel("span"@);
                        let date = if spans.len() == 0 {
                            0
                        } else {
                            dates::spec_resolve_date(
                                text::trimmed(spans[spans.len() - 1].text@),
                                seq![dates::DateFormat::DashYearMonthDay],
                                dates::russian_units_spec(),
                                dates::russian_ago_marker(),
                                now,
                                dates::DateFallback::Epoch,
                            )
                        };
                        Some(
                            ChapterFields {
                                id,
                                title,
                                volume: vc.0,
                                chapter: (match vc.1 {
                                    Some(c) => c,
                                    None => 0,
                                }),
                                date_updated: date,
                                url: base + "/"@ + manga_id + "/"@ + id + "?mtr=true"@,
                            },
                        )
                    }
                },
            },
        }
    }
}

/// The records contributed by the chapter cards `rows[i..]`; an incomplete
/// card is dropped and the batch continues.
pub open spec fn senkuro_chapter_outputs_from(
    rows: Seq<Node>,
    manga_id: Seq<char>,
    base: Seq<char>,
    now: int,
    i: int,
) -> Seq<ChapterFields>
    decreases rows.len() - i,
{
    if i < 0 || i >= rows.len() {
        Seq::empty()
    } else {
        match senkuro_chapter_fields(rows[i], manga_id, base, now) {
            Some(f) => seq![f] + senkuro_chapter_outputs_from(rows, manga_id, base, now, i + 1),
            None => senkuro_chapter_outputs_from(rows, manga_id, base, now, i + 1),
        }
    }
}

fn uint_scan_exec(toks: &Vec<Vec<char>>, i: usize) -> (r: Option<(i64, usize)>)
    requires
        i <= toks@.len(),
    ensures
        match r {
            Some(p) => uint_scan(text::views_of(toks@), i as int) == Some(
                (p.0 as int, p.1 as int),
            ) && 0 <= p.0 < 1000000000000 && i <= p.1 < toks@.len(),
            None => uint_scan(text::views_of(toks@), i as int) is None,
        },
    decreases toks@.len() - i,
{
    if i >= toks.len() {
        None
    } else {
        let t = &toks[i];
        if t.len() >= 1 && t.len() <= 12 && text::check_all_digits(t) {
            match text::parse_uint(t) {
                Some(n) => {
                    proof {
                        text::lemma_dec_value_bounds(t@);
                        text::lemma_pow10_mono(t@.len() as nat, 12);
                        assert(text::pow10(12) == 1000000000000) by {
                            reveal_with_fuel(text::pow10, 13);
                        }
                    }
                    Some((n as i64, i))
                },
                None => {
                    // Unreachable: the guards above establish the token shape.
                    uint_scan_exec(toks, i + 1)
                },
            }
        } else {
            uint_scan_exec(toks, i + 1)
        }
    }
}

fn chapter_record(row: &Node, manga_id: &str, base: &str, now: i64) -> (r: Option<Chapter>)
    requires
        0 <= now <= 300000000000,
    ensures
        match r {
            Some(c) => senkuro_chapter_fields(*row, manga_id@, base@, now as int) is Some
                && chapter_matches_fields(
                c,
                senkuro_chapter_fields(*row, manga_id@, base@, now as int)->0,
            ),
            None => senkuro_chapter_fields(*row, manga_id@, base@, now as int) is None,
        },
{
    let link = match row.select_last("a.card-chapter__link") {
        Some(n) => n,
        None => {
            return None;
        },
    };
    let href = match link.attr("href") {
        Some(h) => h,
        None => {
            return None;
        },
    };
    let hrefv = text::str_chars(href.as_str());
    let marker = text::str_chars("/chapters/");
    let k = match text::find_sub_from(&hrefv, &marker, 0) {
        Some(k) => k,
        None => {
            return None;
        },
    };
    let hn = hrefv.len();
    proof {
        reveal_strlit("/chapters/");
        text::lemma_find_from_some(hrefv@, marker@, 0, k as int);
        assert(k + 10 <= hn);
    }
    let rest = text::subvec(&hrefv, k + 10, hrefv.len());
    proof {
        assert(rest@ =~= hrefv@.skip(k + 10));
    }
    let piece = match text::find_sub_from(&rest, &marker, 0) {
        Some(j) => text::subvec(&rest, 0, j),
        None => text::subvec(&rest, 0, rest.len()),
    };
    proof {
        assert(rest@.subrange(0, rest@.len() as int) =~= rest@);
        assert(forall|j: int| 0 <= j <= rest@.len() ==> rest@.subrange(0, j) =~= rest@.take(j));
    }
    let slash = text::find_char_exec(&piece, '/', 0);
    let idv = text::subvec(&piece, 0, slash);
    proof {
        assert(idv@ =~= piece@.take(slash as int));
    }
    let h3 = match link.select_last("h3") {
        Some(n) => n,
        None => {
            return None;
        },
    };
    let fullv = text::str_chars(h3.text.as_str());
    let pieces = text::split_char(&fullv, '>');
    assert(pieces@.len() > 0) by {
        assert(text::views_of(pieces@).len() > 0);
    }
    let lastv = &pieces[pieces.len() - 1];
    let titlev = text::trim(lastv);
    let tom = text::str_chars("Том");
    let glava = text::str_chars("Глава");
    let no_tom = text::remove_sub_all(&fullv, &tom);
    let cleaned = text::remove_sub_all(&no_tom, &glava);
    let toks = text::split_ws(&cleaned);
    let tn = toks.len();
    let (volume, chapter): (Option<i64>, i64) = match uint_scan_exec(&toks, 0) {
        None => (None, 0),
        Some((v, j)) => {
            assert(j < tn);
            match uint_scan_exec(&toks, j + 1) {
                None => (Some(v * 1000), 0),
                Some((c, _)) => (Some(v * 1000), c * 1000),
            }
        },
    };
    let date_updated: i64 = match row.select_last("span") {
        Some(span) => {
            let sv = text::str_chars(span.text.as_str());
            let st = text::trim(&sv);
            let ds = foreign::string_from_chars(&st);
            let mut formats: Vec<dates::DateFormat> = Vec::new();
            formats.push(dates::DateFormat::DashYearMonthDay);
            let vocab = dates::russian_time_units();
            let e = dates::resolve_date(
                ds.as_str(),
                &formats,
                &vocab,
                "назад",
                now,
                dates::DateFallback::Epoch,
            );
            proof {
                assert(formats@ =~= seq![dates::DateFormat::DashYearMonthDay]);
            }
            e
        },
        None => 0,
    };
    let id = foreign::string_from_chars(&idv);
    let url = helpers::get_chapter_url(base, manga_id, id.as_str());
    Some(
        Chapter {
            id,
            title: foreign::string_from_chars(&titlev),
            volume,
            chapter,
            date_updated,
            url,
            lang: String::from_str("ru"),
        },
    )
}

fn chapter_records(doc: &Node, manga_id: &str, base: &str, now: i64, i: usize) -> (r: Vec<Chapter>)
    requires
        i <= doc.sel(".chapter-result > article.card-chapter"@).len(),
        0 <= now <= 300000000000,
    ensures
        chapters_match(
            r@,
            senkuro_chapter_outputs_from(
                doc.sel(".chapter-result > article.card-chapter"@),
                manga_id@,
                base@,
                now as int,
                i as int,
            ),
        ),
    decreases doc.sel(".chapter-result > article.card-chapter"@).len() - i,
{
    let count = doc.select_count(".chapter-result > article.card-chapter");
    if i >= count {
        Vec::new()
    } else {
        let row = doc.select_nth(".chapter-result > article.card-chapter", i);
        match chapter_record(row, manga_id, base, now) {
            Some(c) => {
                let mut r = chapter_records(doc, manga_id, base, now, i + 1);
                r.insert(0, c);
                proof {
                    let fs = senkuro_chapter_outputs_from(
                        doc.sel(".chapter-result > article.card-chapter"@),
                        manga_id@,
                        base@,
                        now as int,
                        i as int,
                    );
                    assert(forall|k: int| 1 <= k < fs.len() ==> fs[k] == fs.skip(1)[k - 1]);
                }
                r
            },
            None => chapter_records(doc, manga_id, base, now, i + 1),
        }
    }
}

/// Parse the chapter cards of a details document. An incomplete card is
/// dropped; the batch itself always succeeds. `now` is the caller's clock
/// reading for relative dates; unresolved dates fall back to the epoch.
pub fn parse_chapters(html: &Node, manga_id: &str, base_url: &str, now: i64) -> (r: Result<
    Vec<Chapter>,
    SourceError,
>)
    requires
        0 <= now <= 300000000000,
    ensures
        match r {
            Ok(cs) => chapters_match(
                cs@,
                senkuro_chapter_outputs_from(
                    html.sel(".chapter-result > article.card-chapter"@),
                    manga_id@,
                    base_url@,
                    now as int,
                    0,
                ),
            ),
            Err(_) => false,
        },
{
    Ok(chapter_records(html, manga_id, base_url, now, 0))
}

/// The identifier a deep link resolves to: the first path segment after the
/// scheme and host; nothing when the URL carries no path segment.
pub open spec fn deep_link_id_of(url: Seq<char>) -> Option<Seq<char>> {
    let s = match text::find_from(url, "://"@, 0) {
        Some(k) => url.skip(k + 3),
        None => url,
    };
    let slash = text::find_char_from(s, '/', 0);
    if slash >= s.len() {
        None
    } else {
        let after = s.skip(slash + 1);
        let seg = after.take(text::find_char_from(after, '/', 0));
        if seg.len() == 0 {
            None
        } else {
            Some(seg)
        }
    }
}

/// Resolve an incoming source-domain URL to the publication identifier its
/// first path segment names; `NotFound` without one. The caller routes the
/// identifier through the details path to build the deep link.
pub fn parse_incoming_url(url: &str) -> (r: Result<String, SourceError>)
    ensures
        match r {
            Ok(id) => deep_link_id_of(url@) == Some(id@),
            Err(e) => deep_link_id_of(url@) is None && e == SourceError::NotFound,
        },
{
    let urlv = text::str_chars(url);
    let scheme = text::str_chars("://");
    let s = match text::find_sub_from(&urlv, &scheme, 0) {
        Some(k) => {
            let un = urlv.len();
            proof {
                reveal_strlit("://");
                text::lemma_find_from_some(urlv@, scheme@, 0, k as int);
                assert(k + 3 <= un);
            }
            text::subvec(&urlv, k + 3, urlv.len())
        },
        None => text::subvec(&urlv, 0, urlv.len()),
    };
    proof {
        assert(urlv@.subrange(0, urlv@.len() as int) =~= urlv@);
        assert(forall|k: int|
            0 <= k <= urlv@.len() ==> urlv@.subrange(k, urlv@.len() as int) =~= urlv@.skip(k));
    }
    let slash = text::find_char_exec(&s, '/', 0);
    if slash >= s.len() {
        return Err(SourceError::NotFound);
    }
    let after = text::subvec(&s, slash + 1, s.len());
    proof {
        assert(after@ =~= s@.skip(slash + 1));
    }
    let end = text::find_char_exec(&after, '/', 0);
    let seg = text::subvec(&after, 0, end);
    proof {
        assert(seg@ =~= after@.take(end as int));
    }
    if seg.len() == 0 {
        Err(SourceError::NotFound)
    } else {
        Ok(foreign::string_from_chars(&seg))
    }
}

/// The three comma-separated parts of one bracketed page entry, after its
/// quote characters are removed; nothing unless exactly three parts remain.
pub open spec fn triple_of(sub: Seq<char>) -> Option<(Seq<char>, Seq<char>, Seq<char>)> {
    let cleaned = text::remove_sub_from(text::remove_sub_from(sub, "'"@, 0), "\""@, 0);
    let ps = text::split_char_from(cleaned, ',', 0);
    if ps.len() == 3 {
        Some((ps[0], ps[1], ps[2]))
    } else {
        None
    }
}

/// The image URL a parts triple assembles to: a static path gets the base
/// URL, a publication path drops the middle part, anything else is the three
/// parts glued; a URL without a scheme gets one.
pub open spec fn url_of_triple(
    t: (Seq<char>, Seq<char>, Seq<char>),
    base: Seq<char>,
) -> Seq<char> {
    let u = if t.1.len() == 0 && text::starts_with(t.2, "/static/"@) {
        base + t.2
    } else if text::starts_with(t.1, "/manga/"@) {
        t.0 + t.2
    } else {
        t.0 + t.1 + t.2
    };
    if text::contains_sub(u, "://"@) {
        u
    } else {
        "https:"@ + u
    }
}

/// The URL after the proxy-host rule: a URL through the one-way host is cut
/// before its query, and dropped entirely when it has none.
pub open spec fn final_url(u: Seq<char>) -> Option<Seq<char>> {
    if text::contains_sub(u, "one-way.work"@) {
        let q = text::find_char_from(u, '?', 0);
        if q < u.len() {
            Some(u.take(q))
        } else {
            None
        }
    } else {
        Some(u)
    }
}

/// The page URLs the `k`-th and later bracket pairs of the script fragment
/// yield: entries whose markers cross, or that do not split into three
/// parts, or that the proxy rule drops, contribute nothing.
pub open spec fn urls_from_pairs(
    s2: Seq<char>,
    ls: Seq<int>,
    rs: Seq<int>,
    base: Seq<char>,
    k: int,
) -> Seq<Seq<char>>
    decreases ls.len() - k,
{
    if k < 0 || k >= ls.len() || k >= rs.len() {
        Seq::empty()
    } else if ls[k] > rs[k] {
        urls_from_pairs(s2, ls, rs, base, k + 1)
    } else {
        match triple_of(s2.subrange(ls[k] + 1, rs[k] + 1)) {
            Some(t) => match final_url(url_of_triple(t, base)) {
                Some(u) => seq![u] + urls_from_pairs(s2, ls, rs, base, k + 1),
                None => urls_from_pairs(s2, ls, rs, base, k + 1),
            },
            None => urls_from_pairs(s2, ls, rs, base, k + 1),
        }
    }
}

/// What a reader document's script yields: nothing without the reader script
/// or its bracketed page list; otherwise the URLs of the well-formed entries
/// between the entry markers, in order.
pub open spec fn spec_page_urls(doc: Node, base: Seq<char>) -> Option<Seq<Seq<char>>> {
    let scripts = doc.sel("div.reader-controller > script[type=text/javascript]"@);
    if scripts.len() == 0 {
        None
    } else {
        let data = scripts[scripts.len() - 1].data@;
        let t = match text::find_from(data, "rm_h.readerDoInit("@, 0) {
            Some(k) => data.skip(k),
            None => data,
        };
        let fa = text::find_from(t, "[["@, 0);
        let fb = text::find_from(t, "]]"@, 0);
        match (fa, fb) {
            (Some(a), Some(b)) => {
                if a > b {
                    None
                } else {
                    let s2 = t.subrange(a, b + 2);
                    Some(
                        urls_from_pairs(
                            s2,
                            text::occurrences_from(s2, "['"@, 0),
                            text::occurrences_from(s2, "\","@, 0),
                            base,
                            0,
                        ),
                    )
                }
            },
            _ => None,
        }
    }
}

/// Page records carry the given URLs in order, indexed by position.
pub open spec fn pages_match_urls(ps: Seq<Page>, us: Seq<Seq<char>>) -> bool {
    ps.len() == us.len() && (forall|k: int|
        0 <= k < ps.len() ==> (#[trigger] ps[k]).index == k && ps[k].url@ == us[k])
}

fn triple_exec(sub: &Vec<char>) -> (r: Option<(String, String, String)>)
    ensures
        match r {
            Some(t) => triple_of(sub@) == Some((t.0@, t.1@, t.2@)),
            None => triple_of(sub@) is None,
        },
{
    let sq = text::str_chars("'");
    let dq = text::str_chars("\"");
    let no_sq = text::remove_sub_all(sub, &sq);
    let cleaned = text::remove_sub_all(&no_sq, &dq);
    let pieces = text::split_char(&cleaned, ',');
    let parts = text::strings_of(&pieces);
    foreign::collect_triple(parts)
}

fn assemble_url(t: (String, String, String), base: &Vec<char>) -> (r: Vec<char>)
    ensures
        r@ == url_of_triple((t.0@, t.1@, t.2@), base@),
{
    let p0 = text::str_chars(t.0.as_str());
    let p1 = text::str_chars(t.1.as_str());
    let p2 = text::str_chars(t.2.as_str());
    let static_pre = text::str_chars("/static/");
    let manga_pre = text::str_chars("/manga/");
    let mut u: Vec<char> = Vec::new();
    if p1.len() == 0 && text::begins_with(&p2, &static_pre) {
        text::push_all(&mut u, base);
        text::push_all(&mut u, &p2);
    } else if text::begins_with(&p1, &manga_pre) {
        text::push_all(&mut u, &p0);
        text::push_all(&mut u, &p2);
    } else {
        text::push_all(&mut u, &p0);
        text::push_all(&mut u, &p1);
        text::push_all(&mut u, &p2);
    }
    let scheme = text::str_chars("://");
    if text::has_sub(&u, &scheme) {
        u
    } else {
        let mut w = text::str_chars("https:");
        text::push_all(&mut w, &u);
        w
    }
}

fn finalize_url(u: Vec<char>) -> (r: Option<Vec<char>>)
    ensures
        match r {
            Some(w) => final_url(u@) == Some(w@),
            None => final_url(u@) is None,
        },
{
    let proxy = text::str_chars("one-way.work");
    if text::has_sub(&u, &proxy) {
        let q = text::find_char_exec(&u, '?', 0);
        if q < u.len() {
            let w = text::subvec(&u, 0, q);
            proof {
                assert(w@ =~= u@.take(q as int));
            }
            Some(w)
        } else {
            None
        }
    } else {
        Some(u)
    }
}

fn urls_exec(s2: &Vec<char>, ls: &Vec<usize>, rs: &Vec<usize>, base: &Vec<char>, k: usize) -> (r:
    Vec<Vec<char>>)
    requires
        k <= ls@.len(),
        forall|j: int| 0 <= j < ls@.len() ==> #[trigger] ls@[j] + 2 <= s2@.len(),
        forall|j: int| 0 <= j < rs@.len() ==> #[trigger] rs@[j] + 2 <= s2@.len(),
    ensures
        text::views_of(r@) == urls_from_pairs(
            s2@,
            ls@.map_values(|x: usize| x as int),
            rs@.map_values(|x: usize| x as int),
            base@,
            k as int,
        ),
    decreases ls@.len() - k,
{
    let ghost lsi = ls@.map_values(|x: usize| x as int);
    let ghost rsi = rs@.map_values(|x: usize| x as int);
    if k >= ls.len() || k >= rs.len() {
        let r: Vec<Vec<char>> = Vec::new();
        proof {
            assert(text::views_of(r@) =~= urls_from_pairs(s2@, lsi, rsi, base@, k as int));
        }
        r
    } else {
        let l = ls[k];
        let rr = rs[k];
        let n = s2.len();
        proof {
            assert(ls@[k as int] + 2 <= s2@.len());
            assert(rs@[k as int] + 2 <= s2@.len());
            assert(l + 2 <= n && rr + 2 <= n);
        }
        if l > rr {
            urls_exec(s2, ls, rs, base, k + 1)
        } else {
            let sub = text::subvec(s2, l + 1, rr + 1);
            match triple_exec(&sub) {
                Some(t) => {
                    let u = assemble_url(t, base);
                    match finalize_url(u) {
                        Some(w) => {
                            let mut r = urls_exec(s2, ls, rs, base, k + 1);
                            r.insert(0, w);
                            proof {
                                assert(text::views_of(r@) =~= seq![w@] + urls_from_pairs(
                                    s2@,
                                    lsi,
                                    rsi,
                                    base@,
                                    k + 1,
                                ));
                            }
                            r
                        },
                        None => urls_exec(s2, ls, rs, base, k + 1),
                    }
                },
                None => urls_exec(s2, ls, rs, base, k + 1),
            }
        }
    }
}

fn pages_of_urls(urls: &Vec<Vec<char>>, i: usize) -> (r: Vec<Page>)
    requires
        i <= urls@.len(),
    ensures
        r@.len() == urls@.len() - i,
        forall|k: int|
            0 <= k < r@.len() ==> (#[trigger] r@[k]).index == i + k && r@[k].url@ == urls@[i
                + k]@,
    decreases urls@.len() - i,
{
    if i >= urls.len() {
        Vec::new()
    } else {
        let page = Page { index: i, url: foreign::string_from_chars(&urls[i]) };
        let mut r = pages_of_urls(urls, i + 1);
        r.insert(0, page);
        r
    }
}

/// Parse a reader document's script into its page records: one per
/// well-formed bracketed entry, indexed in order. `ParseFailure` without the
/// reader script or its page-list brackets.
pub fn get_page_list(html: &Node, base_url: &str) -> (r: Result<Vec<Page>, SourceError>)
    ensures
        match r {
            Ok(ps) => spec_page_urls(*html, base_url@) is Some && pages_match_urls(
                ps@,
                spec_page_urls(*html, base_url@)->0,
            ),
            Err(e) => spec_page_urls(*html, base_url@) is None && e == SourceError::ParseFailure,
        },
{
    let script = match html.select_last("div.reader-controller > script[type=text/javascript]") {
        Some(n) => n,
        None => {
            return Err(crate::records::create_parsing_error());
        },
    };
    let data = text::str_chars(script.data.as_str());
    let init_marker = text::str_chars("rm_h.readerDoInit(");
    let t = match text::find_sub_from(&data, &init_marker, 0) {
        Some(k) => {
            let w = text::subvec(&data, k, data.len());
            proof {
                assert(w@ =~= data@.skip(k as int));
            }
            w
        },
        None => data,
    };
    let open_pat = text::str_chars("[[");
    let close_pat = text::str_chars("]]");
    let a = match text::find_sub_from(&t, &open_pat, 0) {
        Some(a) => a,
        None => {
            return Err(crate::records::create_parsing_error());
        },
    };
    let b = match text::find_sub_from(&t, &close_pat, 0) {
        Some(b) => b,
        None => {
            return Err(crate::records::create_parsing_error());
        },
    };
    if a > b {
        return Err(crate::records::create_parsing_error());
    }
    let tn = t.len();
    proof {
        reveal_strlit("[[");
        reveal_strlit("]]");
        text::lemma_find_from_some(t@, close_pat@, 0, b as int);
        assert(b + 2 <= tn);
    }
    let s2 = text::subvec(&t, a, b + 2);
    let entry_open = text::str_chars("['");
    let entry_close = text::str_chars("\",");
    proof {
        reveal_strlit("['");
        reveal_strlit("\",");
    }
    let ls = text::occurrence_list(&s2, &entry_open, 0);
    let rs = text::occurrence_list(&s2, &entry_close, 0);
    let basev = text::str_chars(base_url);
    let urls = urls_exec(&s2, &ls, &rs, &basev, 0);
    Ok(pages_of_urls(&urls, 0))
}

/// The query tokens the filters contribute, in filter order: a title filter
/// its encoded text under the query key; a genre filter its parameter name
/// marked included or excluded; a checked option its parameter name marked
/// included. Anything else contributes nothing.
pub open spec fn filter_params_from(filters: Seq<Filter>, i: int) -> Seq<Seq<char>>
    decreases filters.len() - i,
{
    if i < 0 || i >= filters.len() {
        Seq::empty()
    } else {
        let head: Seq<Seq<char>> = match filters[i].kind {
            FilterType::Title => match filters[i].value {
                FilterValue::Text(s) => seq!["q="@ + urlenc::encoded_from(s@, 0)],
                _ => Seq::empty(),
            },
            FilterType::Genre => match (filters[i].id, filters[i].value) {
                (Some(id), FilterValue::Number(n)) => {
                    if n == 0 {
                        seq![id@ + "=out"@]
                    } else if n == 1 {
                        seq![id@ + "=in"@]
                    } else {
                        Seq::empty()
                    }
                },
                _ => Seq::empty(),
            },
            FilterType::Check => match (filters[i].id, filters[i].value) {
                (Some(id), FilterValue::Number(n)) => {
                    if n != 0 {
                        seq![id@ + "=in"@]
                    } else {
                        Seq::empty()
                    }
                },
                _ => Seq::empty(),
            },
            FilterType::Other => Seq::empty(),
        };
        head + filter_params_from(filters, i + 1)
    }
}

/// The tokens among `ps[i..]` that begin with the query key, in order.
pub open spec fn q_params_from(ps: Seq<Seq<char>>, i: int) -> Seq<Seq<char>>
    decreases ps.len() - i,
{
    if i < 0 || i >= ps.len() {
        Seq::empty()
    } else if text::starts_with(ps[i], "q="@) {
        seq![ps[i]] + q_params_from(ps, i + 1)
    } else {
        q_params_from(ps, i + 1)
    }
}

/// The tokens among `ps[i..]` that do not begin with the query key, in order.
pub open spec fn other_params_from(ps: Seq<Seq<char>>, i: int) -> Seq<Seq<char>>
    decreases ps.len() - i,
{
    if i < 0 || i >= ps.len() {
        Seq::empty()
    } else if !text::starts_with(ps[i], "q="@) {
        seq![ps[i]] + other_params_from(ps, i + 1)
    } else {
        other_params_from(ps, i + 1)
    }
}

/// The browse URL of a filter set: the numeric offset of the 1-based page,
/// the ordering, and the filter tokens, free-text query tokens moved to the
/// front with relative order kept, joined and appended to the browse
/// endpoint.
pub open spec fn spec_filter_url(filters: Seq<Filter>, sort: Sorting, page: int) -> Seq<char> {
    let params = seq![
        "offset="@ + text::dec_chars((page - 1) * 50),
        "sortType="@ + sorting::sort_param_of(sort),
    ] + filter_params_from(filters, 0);
    let ordered = q_params_from(params, 0) + other_params_from(params, 0);
    "https://senkuro.me/browse/manga/"@ + text::join_char_from(ordered, '&', 0)
}

fn filter_params(filters: &Vec<Filter>, i: usize) -> (r: Vec<Vec<char>>)
    requires
        i <= filters@.len(),
    ensures
        text::views_of(r@) == filter_params_from(filters@, i as int),
    decreases filters@.len() - i,
{
    if i >= filters.len() {
        let r: Vec<Vec<char>> = Vec::new();
        proof {
            assert(text::views_of(r@) =~= filter_params_from(filters@, i as int));
        }
        r
    } else {
        let mut head: Option<Vec<char>> = None;
        match filters[i].kind {
            FilterType::Title => {
                match &filters[i].value {
                    FilterValue::Text(s) => {
                        let enc = urlenc::encode_uri(s.as_str());
                        let mut h = text::str_chars("q=");
                        let encv = text::str_chars(enc.as_str());
                        text::push_all(&mut h, &encv);
                        head = Some(h);
                    },
                    _ => {},
                }
            },
            FilterType::Genre => {
                match (&filters[i].id, &filters[i].value) {
                    (Some(id), FilterValue::Number(n)) => {
                        if *n == 0 {
                            let mut h = text::str_chars(id.as_str());
                            let suffix = text::str_chars("=out");
                            text::push_all(&mut h, &suffix);
                            head = Some(h);
                        } else if *n == 1 {
                            let mut h = text::str_chars(id.as_str());
                            let suffix = text::str_chars("=in");
                            text::push_all(&mut h, &suffix);
                            head = Some(h);
                        }
                    },
                    _ => {},
                }
            },
            FilterType::Check => {
                match (&filters[i].id, &filters[i].value) {
                    (Some(id), FilterValue::Number(n)) => {
                        if *n != 0 {
                            let mut h = text::str_chars(id.as_str());
                            let suffix = text::str_chars("=in");
                            text::push_all(&mut h, &suffix);
                            head = Some(h);
                        }
                    },
                    _ => {},
                }
            },
            FilterType::Other => {},
        }
        let rest = filter_params(filters, i + 1);
        match head {
            Some(h) => {
                let mut r = rest;
                r.insert(0, h);
                proof {
                    assert(text::views_of(r@) =~= seq![r@[0]@] + filter_params_from(
                        filters@,
                        i + 1,
                    ));
                }
                r
            },
            None => rest,
        }
    }
}

fn q_params(ps: &Vec<Vec<char>>, i: usize) -> (r: Vec<Vec<char>>)
    requires
        i <= ps@.len(),
    ensures
        text::views_of(r@) == q_params_from(text::views_of(ps@), i as int),
    decreases ps@.len() - i,
{
    let key = text::str_chars("q=");
    proof {
        reveal_strlit("q=");
    }
    if i >= ps.len() {
        let r: Vec<Vec<char>> = Vec::new();
        proof {
            assert(text::views_of(r@) =~= q_params_from(text::views_of(ps@), i as int));
        }
        r
    } else if text::begins_with(&ps[i], &key) {
        let piece = text::subvec(&ps[i], 0, ps[i].len());
        let mut r = q_params(ps, i + 1);
        r.insert(0, piece);
        proof {
            assert(ps@[i as int]@.subrange(0, ps@[i as int]@.len() as int) =~= ps@[i as int]@);
            assert(text::views_of(r@) =~= seq![ps@[i as int]@] + q_params_from(
                text::views_of(ps@),
                i + 1,
            ));
        }
        r
    } else {
        q_params(ps, i + 1)
    }
}

fn other_params(ps: &Vec<Vec<char>>, i: usize) -> (r: Vec<Vec<char>>)
    requires
        i <= ps@.len(),
    ensures
        text::views_of(r@) == other_params_from(text::views_of(ps@), i as int),
    decreases ps@.len() - i,
{
    let key = text::str_chars("q=");
    proof {
        reveal_strlit("q=");
    }
    if i >= ps.len() {
        let r: Vec<Vec<char>> = Vec::new();
        proof {
            assert(text::views_of(r@) =~= other_params_from(text::views_of(ps@), i as int));
        }
        r
    } else if !text::begins_with(&ps[i], &key) {
        let piece = text::subvec(&ps[i], 0, ps[i].len());
        let mut r = other_params(ps, i + 1);
        r.insert(0, piece);
        proof {
            assert(ps@[i as int]@.subrange(0, ps@[i as int]@.len() as int) =~= ps@[i as int]@);
            assert(text::views_of(r@) =~= seq![ps@[i as int]@] + other_params_from(
                text::views_of(ps@),
                i + 1,
            ));
        }
        r
    } else {
        other_params(ps, i + 1)
    }
}

/// Build the browse URL for a filter set, an ordering, and a 1-based page.
pub fn get_filter_url(filters: &Vec<Filter>, sort: &Sorting, page: i32) -> (r: Result<
    String,
    SourceError,
>)
    requires
        1 <= page <= 1000000000,
    ensures
        match r {
            Ok(u) => u@ == spec_filter_url(filters@, *sort, page as int),
            Err(_) => false,
        },
{
    let offset = ((page - 1) as u64) * 50;
    let mut p0 = text::str_chars("offset=");
    let digits = text::uint_chars(offset);
    text::push_all(&mut p0, &digits);
    let mut p1 = text::str_chars("sortType=");
    let sortv = text::str_chars(sort.param());
    text::push_all(&mut p1, &sortv);
    let mut params: Vec<Vec<char>> = Vec::new();
    params.push(p0);
    params.push(p1);
    let mut fps = filter_params(filters, 0);
    let ghost params_head = text::views_of(params@);
    params.append(&mut fps);
    proof {
        assert(text::views_of(params@) =~= seq![
            "offset="@ + text::dec_chars((page - 1) * 50),
            "sortType="@ + sorting::sort_param_of(*sort),
        ] + filter_params_from(filters@, 0));
    }
    let mut ordered = q_params(&params, 0);
    let mut others = other_params(&params, 0);
    let ghost q_head = text::views_of(ordered@);
    ordered.append(&mut others);
    proof {
        let all = text::views_of(params@);
        assert(text::views_of(ordered@) =~= q_params_from(all, 0) + other_params_from(all, 0));
    }
    let joined = text::join_char(&ordered, '&');
    let mut out = text::str_chars("https://senkuro.me/browse/manga/");
    text::push_all(&mut out, &joined);
    Ok(foreign::string_from_chars(&out))
}

/// The query builder is deterministic and effect-free: one filter set,
/// ordering and page always serialize to the one string the serialization
/// rule denotes, so repeated invocations agree byte for byte.
pub proof fn lemma_filter_url_deterministic(
    f1: Seq<Filter>,
    f2: Seq<Filter>,
    sort: Sorting,
    page: int,
)
    requires
        f1 == f2,
    ensures
        spec_filter_url(f1, sort, page) == spec_filter_url(f2, sort, page),
{
}

} // verus!
