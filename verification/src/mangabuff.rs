//! Site adapter for the card-grid source: listing cards, publication
//! details with their image fallback chain, chapter lists with explicit
//! number attributes, reader page lists, and the search URL.

use vstd::prelude::*;
use crate::chapnum;
use crate::dates;
use crate::dom::Node;
use crate::dom;
use crate::foreign;
use crate::helpers;
use crate::filters::Filter;
use crate::filters::FilterType;
use crate::filters::FilterValue;
use crate::records::Chapter;
use crate::records::ChapterFields;
use crate::records::MangaFields;
use crate::records::chapter_matches_fields;
use crate::records::chapters_match;
use crate::records::manga_matches_fields;
use crate::records::ContentRating;
use crate::records::Page;
use crate::records::Manga;
use crate::records::MangaStatus;
use crate::records::ReadingDirection;
use crate::text;
use crate::urlenc;

verus! {

/// The compiled-in base URL of this source.
pub fn default_base_url() -> (r: &'static str)
    ensures
        r@ == "https://mangabuff.ru"@,
{
    "https://mangabuff.ru"
}

/// The identifier a publication URL derives to: the path after the base URL
/// (or after a leading slash), with trailing slashes dropped; nothing, when
/// that leaves no characters.
pub open spec fn manga_id_of(url: Seq<char>, base: Seq<char>) -> Option<Seq<char>> {
    let path = if text::starts_with(url, base + "/"@) {
        url.subrange(base.len() as int + 1, url.len() as int)
    } else if url.len() > 0 && url[0] == '/' {
        url.subrange(1, url.len() as int)
    } else {
        url
    };
    let id = text::trimmed_end_char(path, '/');
    if id.len() > 0 {
        Some(id)
    } else {
        None
    }
}

/// Derive a publication identifier from its URL.
pub fn get_manga_id(url: &Vec<char>, base: &Vec<char>) -> (r: Option<Vec<char>>)
    ensures
        match r {
            Some(id) => manga_id_of(url@, base@) == Some(id@),
            None => manga_id_of(url@, base@) is None,
        },
{
    let mut pre: Vec<char> = Vec::new();
    text::push_all(&mut pre, base);
    pre.push('/');
    proof {
        reveal_strlit("/");
        assert(pre@ =~= base@ + "/"@);
    }
    let path: Vec<char> = match text::strip_prefix(url, &pre) {
        Some(rest) => rest,
        None => {
            if url.len() > 0 && url[0] == '/' {
                text::subvec(url, 1, url.len())
            } else {
                text::subvec(url, 0, url.len())
            }
        },
    };
    proof {
        assert(url@.subrange(0, url@.len() as int) =~= url@);
    }
    let id = text::trim_end_char(&path, '/');
    if id.len() > 0 {
        Some(id)
    } else {
        None
    }
}

/// The image URL inside a CSS `url(...)` term of a style attribute, quotes
/// stripped; nothing when no such term closes.
pub open spec fn thumb_url_of(style: Seq<char>) -> Option<Seq<char>> {
    match text::find_from(style, "url("@, 0) {
        Some(k) => {
            let after = k + 4;
            let close = text::find_char_from(style, ')', after);
            if close < style.len() {
                let inner = style.subrange(after, close);
                Some(
                    text::remove_sub_from(
                        text::remove_sub_from(inner, "'"@, 0),
                        "\""@,
                        0,
                    ),
                )
            } else {
                None
            }
        },
        None => None,
    }
}

/// Extract the cover image URL from a card's style attribute.
pub fn get_manga_thumb_url(style: &Vec<char>) -> (r: Option<Vec<char>>)
    ensures
        match r {
            Some(u) => thumb_url_of(style@) == Some(u@),
            None => thumb_url_of(style@) is None,
        },
{
    let pat = text::str_chars("url(");
    let k = match text::find_sub_from(style, &pat, 0) {
        Some(k) => k,
        None => {
            return None;
        },
    };
    let n = style.len();
    proof {
        reveal_strlit("url(");
        text::lemma_find_from_some(style@, pat@, 0, k as int);
        assert(k + 4 <= n);
    }
    let after = k + 4;
    let close = text::find_char_exec(style, ')', after);
    if close < style.len() {
        let inner = text::subvec(style, after, close);
        let sq = text::str_chars("'");
        let dq = text::str_chars("\"");
        let no_sq = text::remove_sub_all(&inner, &sq);
        let cleaned = text::remove_sub_all(&no_sq, &dq);
        Some(cleaned)
    } else {
        None
    }
}

/// The normalized status a status-link label maps to.
pub open spec fn status_of_label(label: Seq<char>) -> MangaStatus {
    if label == "Завершено"@ || label == "Завершён"@ {
        MangaStatus::Completed
    } else if label == "Продолжается"@ || label == "Выпускается"@ {
        MangaStatus::Ongoing
    } else if label == "Заморожено"@ || label == "Приостановлен"@ {
        MangaStatus::Hiatus
    } else if label == "Заброшен"@ {
        MangaStatus::Cancelled
    } else {
        MangaStatus::Unknown
    }
}

/// Map a status word of this source onto the normalized vocabulary.
pub fn parse_status(label: &Vec<char>) -> (r: MangaStatus)
    ensures
        r == status_of_label(label@),
{
    let l = foreign::string_from_chars(label);
    let s = l.as_str();
    if text::str_eq(s, "Завершено") || text::str_eq(s, "Завершён") {
        MangaStatus::Completed
    } else if text::str_eq(s, "Продолжается") || text::str_eq(s, "Выпускается") {
        MangaStatus::Ongoing
    } else if text::str_eq(s, "Заморожено") || text::str_eq(s, "Приостановлен") {
        MangaStatus::Hiatus
    } else if text::str_eq(s, "Заброшен") {
        MangaStatus::Cancelled
    } else {
        MangaStatus::Unknown
    }
}

/// The reading direction a type-link label maps to.
pub open spec fn viewer_of_label(label: Seq<char>) -> ReadingDirection {
    if label == "Манхва"@ || label == "OEL-манга"@ || label == "Маньхуа"@ {
        ReadingDirection::VerticalScroll
    } else if label == "Комикс Западный"@ {
        ReadingDirection::LeftToRight
    } else {
        ReadingDirection::SourceDefault
    }
}

/// Map a publication-type word of this source onto a reading direction.
pub fn parse_viewer(label: &Vec<char>) -> (r: ReadingDirection)
    ensures
        r == viewer_of_label(label@),
{
    let l = foreign::string_from_chars(label);
    let s = l.as_str();
    if text::str_eq(s, "Манхва") || text::str_eq(s, "OEL-манга") || text::str_eq(
        s,
        "Маньхуа",
    ) {
        ReadingDirection::VerticalScroll
    } else if text::str_eq(s, "Комикс Западный") {
        ReadingDirection::LeftToRight
    } else {
        ReadingDirection::SourceDefault
    }
}

/// The first of the nodes whose `href` attribute contains `pat`, scanning
/// from `i`.
pub open spec fn link_with_href_from(links: Seq<Node>, pat: Seq<char>, i: int) -> Option<Node>
    decreases links.len() - i,
{
    if i < 0 || i >= links.len() {
        None
    } else {
        match links[i].attr_of("href"@) {
            Some(h) => {
                if text::contains_sub(h, pat) {
                    Some(links[i])
                } else {
                    link_with_href_from(links, pat, i + 1)
                }
            },
            None => link_with_href_from(links, pat, i + 1),
        }
    }
}

/// Find, under `container`, the first node of `selector` whose `href`
/// contains `pat`.
pub fn find_link_with_href<'a>(container: &'a Node, selector: &str, pat: &Vec<char>, i: usize) -> (r:
    Option<&'a Node>)
    requires
        i <= container.sel(selector@).len(),
    ensures
        match r {
            Some(n) => link_with_href_from(container.sel(selector@), pat@, i as int) == Some(
                *n,
            ),
            None => link_with_href_from(container.sel(selector@), pat@, i as int) is None,
        },
    decreases container.sel(selector@).len() - i,
{
    let count = container.select_count(selector);
    if i >= count {
        None
    } else {
        let n = container.select_nth(selector, i);
        match n.attr("href") {
            Some(h) => {
                let hv = text::str_chars(h.as_str());
                if text::has_sub(&hv, pat) {
                    Some(n)
                } else {
                    find_link_with_href(container, selector, pat, i + 1)
                }
            },
            None => find_link_with_href(container, selector, pat, i + 1),
        }
    }
}

/// The fields a listing card contributes to its record.
pub struct CardFields {
    pub id: Seq<char>,
    pub cover: Seq<char>,
    pub title: Seq<char>,
    pub url: Seq<char>,
}

/// What one listing card yields: its link target, the identifier derived
/// from it, the cover from the image block's style, and the name block's
/// text; nothing if any of those is absent.
pub open spec fn card_fields(card: Node, base: Seq<char>) -> Option<CardFields> {
    match card.attr_of("href"@) {
        None => None,
        Some(url) => {
            let imgs = card.sel("div.cards__img"@);
            if imgs.len() == 0 {
                None
            } else {
                match imgs[0].attr_of("style"@) {
                    None => None,
                    Some(style) => match manga_id_of(url, base) {
                        None => None,
                        Some(id) => match thumb_url_of(style) {
                            None => None,
                            Some(cover) => {
                                let names = card.sel("div.cards__name"@);
                                if names.len() == 0 {
                                    None
                                } else {
                                    Some(
                                        CardFields {
                                            id,
                                            cover,
                                            title: names[0].text@,
                                            url,
                                        },
                                    )
                                }
                            },
                        },
                    },
                }
            }
        },
    }
}

/// The records contributed by `cards[i..]`: clone-marked cards contribute
/// nothing, and neither does a card missing a required field.
pub open spec fn card_outputs_from(cards: Seq<Node>, base: Seq<char>, i: int) -> Seq<CardFields>
    decreases cards.len() - i,
{
    if i < 0 || i >= cards.len() {
        Seq::empty()
    } else if dom::is_clone_marked(cards[i]) {
        card_outputs_from(cards, base, i + 1)
    } else {
        match card_fields(cards[i], base) {
            Some(f) => seq![f] + card_outputs_from(cards, base, i + 1),
            None => card_outputs_from(cards, base, i + 1),
        }
    }
}

/// The records of all card groups of a listing document, in document order.
pub open spec fn group_outputs_from(groups: Seq<Node>, base: Seq<char>, gi: int) -> Seq<
    CardFields,
>
    decreases groups.len() - gi,
{
    if gi < 0 || gi >= groups.len() {
        Seq::empty()
    } else {
        card_outputs_from(groups[gi].sel("a.cards__item"@), base, 0) + group_outputs_from(
            groups,
            base,
            gi + 1,
        )
    }
}

/// Everything a listing document yields.
pub open spec fn list_outputs(doc: Node, base: Seq<char>) -> Seq<CardFields> {
    group_outputs_from(doc.sel("div.cards"@), base, 0)
}

/// The record of one card carries its fields; everything the card's markup
/// does not state is the documented default.
pub open spec fn manga_matches_card(m: Manga, f: CardFields) -> bool {
    &&& m.id@ == f.id
    &&& m.cover@ == f.cover
    &&& m.title@ == f.title
    &&& m.url@ == f.url
    &&& m.author@ == Seq::<char>::empty()
    &&& m.artist@ == Seq::<char>::empty()
    &&& m.description@ == Seq::<char>::empty()
    &&& m.categories@.len() == 0
    &&& m.status == MangaStatus::Unknown
    &&& m.nsfw == ContentRating::Safe
    &&& m.viewer == ReadingDirection::SourceDefault
}

pub open spec fn mangas_match_cards(ms: Seq<Manga>, cs: Seq<CardFields>) -> bool {
    ms.len() == cs.len() && (forall|k: int|
        0 <= k < ms.len() ==> manga_matches_card(#[trigger] ms[k], cs[k]))
}

fn card_record(card: &Node, base: &Vec<char>) -> (r: Option<Manga>)
    ensures
        match r {
            Some(m) => card_fields(*card, base@) is Some && manga_matches_card(
                m,
                card_fields(*card, base@)->0,
            ),
            None => card_fields(*card, base@) is None,
        },
{
    let href = match card.attr("href") {
        Some(h) => h,
        None => {
            return None;
        },
    };
    let urlv = text::str_chars(href.as_str());
    let img = match card.select_first("div.cards__img") {
        Some(n) => n,
        None => {
            return None;
        },
    };
    let style = match img.attr("style") {
        Some(s) => s,
        None => {
            return None;
        },
    };
    let stylev = text::str_chars(style.as_str());
    let id = match get_manga_id(&urlv, base) {
        Some(id) => id,
        None => {
            return None;
        },
    };
    let cover = match get_manga_thumb_url(&stylev) {
        Some(c) => c,
        None => {
            return None;
        },
    };
    let name = match card.select_first("div.cards__name") {
        Some(n) => n,
        None => {
            return None;
        },
    };
    Some(
        Manga {
            id: foreign::string_from_chars(&id),
            cover: foreign::string_from_chars(&cover),
            title: name.text.clone(),
            author: String::new(),
            artist: String::new(),
            description: String::new(),
            url: href.clone(),
            categories: Vec::new(),
            status: MangaStatus::Unknown,
            nsfw: ContentRating::Safe,
            viewer: ReadingDirection::SourceDefault,
        },
    )
}

fn cards_records(group: &Node, base: &Vec<char>, ci: usize) -> (r: Vec<Manga>)
    requires
        ci <= group.sel("a.cards__item"@).len(),
    ensures
        mangas_match_cards(r@, card_outputs_from(group.sel("a.cards__item"@), base@, ci as int)),
    decreases group.sel("a.cards__item"@).len() - ci,
{
    let count = group.select_count("a.cards__item");
    if ci >= count {
        Vec::new()
    } else {
        let card = group.select_nth("a.cards__item", ci);
        if dom::clone_marked(card) {
            cards_records(group, base, ci + 1)
        } else {
            match card_record(card, base) {
                Some(m) => {
                    let mut r = cards_records(group, base, ci + 1);
                    r.insert(0, m);
                    proof {
                        let cs = card_outputs_from(group.sel("a.cards__item"@), base@, ci as int);
                        assert(forall|k: int|
                            1 <= k < r@.len() ==> #[trigger] r@[k] == r@.subrange(
                                1,
                                r@.len() as int,
                            )[k - 1]);
                        assert(r@.subrange(1, r@.len() as int) =~= r@.skip(1));
                        assert(forall|k: int| 1 <= k < cs.len() ==> cs[k] == cs.skip(1)[k - 1]);
                    }
                    r
                },
                None => cards_records(group, base, ci + 1),
            }
        }
    }
}

fn group_records(doc: &Node, base: &Vec<char>, gi: usize) -> (r: Vec<Manga>)
    requires
        gi <= doc.sel("div.cards"@).len(),
    ensures
        mangas_match_cards(r@, group_outputs_from(doc.sel("div.cards"@), base@, gi as int)),
    decreases doc.sel("div.cards"@).len() - gi,
{
    let count = doc.select_count("div.cards");
    if gi >= count {
        Vec::new()
    } else {
        let group = doc.select_nth("div.cards", gi);
        let mut r = cards_records(group, base, 0);
        let mut rest = group_records(doc, base, gi + 1);
        let ghost head_cs = card_outputs_from(group.sel("a.cards__item"@), base@, 0);
        let ghost rest_cs = group_outputs_from(doc.sel("div.cards"@), base@, gi + 1);
        let ghost head_ms = r@;
        let ghost rest_ms = rest@;
        r.append(&mut rest);
        proof {
            let cs = head_cs + rest_cs;
            assert(forall|k: int|
                0 <= k < head_ms.len() ==> #[trigger] (head_ms + rest_ms)[k] == head_ms[k]);
            assert(forall|k: int|
                head_ms.len() <= k < cs.len() ==> #[trigger] (head_ms + rest_ms)[k]
                    == rest_ms[k - head_ms.len()]);
        }
        r
    }
}

/// Parse a listing document into its publication records. Cards marked as
/// client-side template duplicates are excluded; a card missing a required
/// field is dropped and the batch continues. `None` when nothing at all
/// could be extracted.
pub fn parse_manga_list(html: &Node, base_url: &str) -> (r: Option<Vec<Manga>>)
    ensures
        match r {
            Some(ms) => list_outputs(*html, base_url@).len() > 0 && mangas_match_cards(
                ms@,
                list_outputs(*html, base_url@),
            ),
            None => list_outputs(*html, base_url@).len() == 0,
        },
{
    let basev = text::str_chars(base_url);
    let ms = group_records(html, &basev, 0);
    if ms.len() == 0 {
        None
    } else {
        Some(ms)
    }
}

/// The category names of a details document: the trimmed texts of the tag
/// links under the tag block; an absent block yields the empty list, not a
/// failure.
pub open spec fn categories_of(doc: Node) -> Seq<Seq<char>> {
    let blocks = doc.sel("div.tags"@);
    if blocks.len() == 0 {
        Seq::empty()
    } else {
        dom::trimmed_texts_from(blocks[0].sel("a.tags__item"@), 0)
    }
}

/// The status of a details page: the label of the first middle link whose
/// target carries the status parameter, mapped through the vocabulary;
/// `Unknown` when no such link exists.
pub open spec fn status_of_doc(main: Node) -> MangaStatus {
    let containers = main.sel("div.manga__middle div.manga__middle-links"@);
    if containers.len() == 0 {
        MangaStatus::Unknown
    } else {
        match link_with_href_from(containers[0].sel("a.manga__middle-link"@), "status_id"@, 0) {
            Some(link) => status_of_label(text::trimmed(link.text@)),
            None => MangaStatus::Unknown,
        }
    }
}

/// The reading direction of a details page: the label of the first middle
/// link into the type listing, mapped through the vocabulary; the source
/// default when no such link exists.
pub open spec fn viewer_of_doc(main: Node) -> ReadingDirection {
    let containers = main.sel("div.manga__middle div.manga__middle-links"@);
    if containers.len() == 0 {
        ReadingDirection::SourceDefault
    } else {
        match link_with_href_from(containers[0].sel("a.manga__middle-link"@), "/types/"@, 0) {
            Some(link) => viewer_of_label(text::trimmed(link.text@)),
            None => ReadingDirection::SourceDefault,
        }
    }
}

/// The cover-resolution chain of a details page: an image block under the
/// main container, else one anywhere in the document, gives the image's
/// `data-src` (else `src`) prefixed with the base URL; with no image block
/// at all, the page-metadata image stands in unchanged as a last resort.
pub open spec fn cover_of(doc: Node, main: Node, base: Seq<char>) -> Option<Seq<char>> {
    let main_imgs = main.sel("div.manga__img"@);
    let doc_imgs = doc.sel("div.manga__img"@);
    if main_imgs.len() > 0 || doc_imgs.len() > 0 {
        let block = if main_imgs.len() > 0 {
            main_imgs[0]
        } else {
            doc_imgs[0]
        };
        let imgs = block.sel("img"@);
        if imgs.len() == 0 {
            None
        } else {
            let src = match imgs[0].attr_of("data-src"@) {
                Some(s) => Some(s),
                None => imgs[0].attr_of("src"@),
            };
            match src {
                Some(s) => Some(base + s),
                None => None,
            }
        }
    } else {
        let metas = doc.sel("meta[property=og:image]"@);
        if metas.len() == 0 {
            None
        } else {
            metas[0].attr_of("content"@)
        }
    }
}

/// What a details document yields for the publication `id`: nothing without
/// the main container, the description panel, a resolvable cover, and a
/// name heading; otherwise every field by its own resolution rule.
pub open spec fn spec_parse_manga(doc: Node, id: Seq<char>, base: Seq<char>) -> Option<
    MangaFields,
> {
    let mains = doc.sel("div.manga"@);
    let descs = doc.sel(
        "div.tabs__content div.tabs__page[data-page=info] div.manga__description"@,
    );
    if mains.len() == 0 || descs.len() == 0 {
        None
    } else {
        match cover_of(doc, mains[0], base) {
            None => None,
            Some(cover) => {
                let titles = mains[0].sel("h1.manga__name"@);
                if titles.len() == 0 {
                    None
                } else {
                    Some(
                        MangaFields {
                            id,
                            cover,
                            title: titles[0].text@,
                            description: descs[0].text@,
                            url: base + "/"@ + id,
                            categories: categories_of(doc),
                            status: status_of_doc(mains[0]),
                            viewer: viewer_of_doc(mains[0]),
                        },
                    )
                }
            },
        }
    }
}

fn doc_categories(doc: &Node) -> (r: Vec<String>)
    ensures
        text::strings_match(r@, categories_of(*doc)),
{
    match doc.select_first("div.tags") {
        Some(block) => {
            let texts = dom::trimmed_texts(block, "a.tags__item", 0);
            text::strings_of(&texts)
        },
        None => Vec::new(),
    }
}

fn doc_status(main: &Node) -> (r: MangaStatus)
    ensures
        r == status_of_doc(*main),
{
    match main.select_first("div.manga__middle div.manga__middle-links") {
        Some(container) => {
            let pat = text::str_chars("status_id");
            match find_link_with_href(container, "a.manga__middle-link", &pat, 0) {
                Some(link) => {
                    let tv = text::str_chars(link.text.as_str());
                    let label = text::trim(&tv);
                    parse_status(&label)
                },
                None => MangaStatus::Unknown,
            }
        },
        None => MangaStatus::Unknown,
    }
}

fn doc_viewer(main: &Node) -> (r: ReadingDirection)
    ensures
        r == viewer_of_doc(*main),
{
    match main.select_first("div.manga__middle div.manga__middle-links") {
        Some(container) => {
            let pat = text::str_chars("/types/");
            match find_link_with_href(container, "a.manga__middle-link", &pat, 0) {
                Some(link) => {
                    let tv = text::str_chars(link.text.as_str());
                    let label = text::trim(&tv);
                    parse_viewer(&label)
                },
                None => ReadingDirection::SourceDefault,
            }
        },
        None => ReadingDirection::SourceDefault,
    }
}

fn doc_cover(doc: &Node, main: &Node, base_url: &str) -> (r: Option<String>)
    ensures
        match r {
            Some(c) => cover_of(*doc, *main, base_url@) == Some(c@),
            None => cover_of(*doc, *main, base_url@) is None,
        },
{
    let block = match main.select_first("div.manga__img") {
        Some(b) => Some(b),
        None => doc.select_first("div.manga__img"),
    };
    match block {
        Some(b) => {
            let img = match b.select_first("img") {
                Some(n) => n,
                None => {
                    return None;
                },
            };
            let src = match img.attr("data-src") {
                Some(s) => Some(s),
                None => img.attr("src"),
            };
            match src {
                Some(s) => {
                    let mut c = String::from_str(base_url);
                    c.append(s.as_str());
                    Some(c)
                },
                None => None,
            }
        },
        None => {
            let meta = match doc.select_first("meta[property=og:image]") {
                Some(n) => n,
                None => {
                    return None;
                },
            };
            match meta.attr("content") {
                Some(c) => Some(c.clone()),
                None => None,
            }
        },
    }
}

/// Parse a details document into the full record of the publication `id`.
/// `None` when the main container, the description panel, the cover chain,
/// or the name heading yields nothing.
pub fn parse_manga(html: &Node, id: String, base_url: &str) -> (r: Option<Manga>)
    ensures
        match r {
            Some(m) => spec_parse_manga(*html, id@, base_url@) is Some && manga_matches_fields(
                m,
                spec_parse_manga(*html, id@, base_url@)->0,
            ),
            None => spec_parse_manga(*html, id@, base_url@) is None,
        },
{
    let main = match html.select_first("div.manga") {
        Some(n) => n,
        None => {
            return None;
        },
    };
    if html.select_count("div.tabs__content div.tabs__page[data-page=info] div.manga__description")
        == 0 {
        return None;
    }
    let desc = html.select_nth(
        "div.tabs__content div.tabs__page[data-page=info] div.manga__description",
        0,
    );
    let cover = match doc_cover(html, main, base_url) {
        Some(c) => c,
        None => {
            return None;
        },
    };
    let title = match main.select_first("h1.manga__name") {
        Some(n) => n.text.clone(),
        None => {
            return None;
        },
    };
    let url = helpers::get_manga_url(base_url, id.as_str());
    let categories = doc_categories(html);
    let status = doc_status(main);
    let viewer = doc_viewer(main);
    Some(
        Manga {
            id,
            cover,
            title,
            author: String::new(),
            artist: String::new(),
            description: desc.text.clone(),
            url,
            categories,
            status,
            nsfw: ContentRating::Safe,
            viewer,
        },
    )
}

/// The display title of a chapter row: the name block's trimmed text; when
/// that is empty or absent, the value block's trimmed text; failing both, a
/// numbered default.
pub open spec fn chapter_title_of(chnode: Node, idx: nat) -> Seq<char> {
    let names = chnode.sel("div.chapters__name"@);
    if names.len() > 0 && text::trimmed(names[0].text@).len() > 0 {
        text::trimmed(names[0].text@)
    } else {
        let vals = chnode.sel("div.chapters__value span"@);
        if vals.len() > 0 {
            text::trimmed(vals[0].text@)
        } else {
            "Глава "@ + text::dec_chars(idx as int + 1)
        }
    }
}

/// The identifier a chapter URL derives to: the remainder after the
/// publication's URL and its slash, with trailing slashes dropped.
pub open spec fn chapter_id_of(url: Seq<char>, manga_url: Seq<char>) -> Seq<char> {
    let pre = manga_url + "/"@;
    let rest = if text::starts_with(url, pre) {
        url.skip(pre.len() as int)
    } else {
        url
    };
    text::trimmed_end_char(rest, '/')
}

/// What one chapter row at 0-based position `idx` yields: nothing without a
/// link target; otherwise the derived identifier, the display title, the
/// resolved number (explicit attribute first, then title tokens, then the
/// position), and the resolved date, falling back to "now".
pub open spec fn chapter_fields(chnode: Node, idx: nat, manga_url: Seq<char>, now: int) -> Option<
    ChapterFields,
> {
    match chnode.attr_of("href"@) {
        None => None,
        Some(url) => {
            let title = chapter_title_of(chnode, idx);
            let chapter = chapnum::resolved_chapter_number(
                title,
                idx + 1,
                chnode.attr_of("data-chapter"@),
            );
            let date = match chnode.attr_of("data-chapter-date"@) {
                Some(d) => dates::spec_resolve_date(
                    text::trimmed(d),
                    seq![dates::DateFormat::DotDayMonthYear],
                    dates::russian_units_spec(),
                    dates::russian_ago_marker(),
                    now,
                    dates::DateFallback::Now,
                ),
                None => now,
            };
            Some(
                ChapterFields {
                    id: chapter_id_of(url, manga_url),
                    title,
                    volume: None,
                    chapter,
                    date_updated: date,
                    url,
                },
            )
        },
    }
}

/// The chapter rows of a details document, in document order; an absent
/// chapter list yields no rows.
pub open spec fn chapter_nodes_of(doc: Node) -> Seq<Node> {
    let lists = doc.sel(
        "div.tabs__content div.tabs__page[data-page=chapters] div.chapters div.chapters__list"@,
    );
    if lists.len() == 0 {
        Seq::empty()
    } else {
        lists[0].sel("a.chapters__item"@)
    }
}

/// The records contributed by the rows `ns[i..]`; a row without a link is
/// dropped and the batch continues.
pub open spec fn chapter_outputs_from(
    ns: Seq<Node>,
    i: int,
    manga_url: Seq<char>,
    now: int,
) -> Seq<ChapterFields>
    decreases ns.len() - i,
{
    if i < 0 || i >= ns.len() {
        Seq::empty()
    } else {
        match chapter_fields(ns[i], i as nat, manga_url, now) {
            Some(f) => seq![f] + chapter_outputs_from(ns, i + 1, manga_url, now),
            None => chapter_outputs_from(ns, i + 1, manga_url, now),
        }
    }
}

fn chapter_title(chnode: &Node, idx: usize) -> (r: Vec<char>)
    requires
        idx < usize::MAX,
    ensures
        r@ == chapter_title_of(*chnode, idx as nat),
{
    if let Some(name) = chnode.select_first("div.chapters__name") {
        let tv = text::str_chars(name.text.as_str());
        let t = text::trim(&tv);
        if t.len() > 0 {
            return t;
        }
    }
    if let Some(val) = chnode.select_first("div.chapters__value span") {
        let tv = text::str_chars(val.text.as_str());
        text::trim(&tv)
    } else {
        let mut r = text::str_chars("Глава ");
        let num = text::uint_chars((idx + 1) as u64);
        text::push_all(&mut r, &num);
        r
    }
}

fn chapter_record(chnode: &Node, idx: usize, manga_url: &Vec<char>, now: i64) -> (r: Option<
    Chapter,
>)
    requires
        idx < usize::MAX,
        0 <= now <= 300000000000,
    ensures
        match r {
            Some(c) => chapter_fields(*chnode, idx as nat, manga_url@, now as int) is Some
                && chapter_matches_fields(
                c,
                chapter_fields(*chnode, idx as nat, manga_url@, now as int)->0,
            ),
            None => chapter_fields(*chnode, idx as nat, manga_url@, now as int) is None,
        },
{
    let href = match chnode.attr("href") {
        Some(h) => h,
        None => {
            return None;
        },
    };
    let urlv = text::str_chars(href.as_str());
    let mut pre: Vec<char> = Vec::new();
    text::push_all(&mut pre, manga_url);
    pre.push('/');
    proof {
        reveal_strlit("/");
        assert(pre@ =~= manga_url@ + "/"@);
    }
    let rest = match text::strip_prefix(&urlv, &pre) {
        Some(rest) => rest,
        None => text::subvec(&urlv, 0, urlv.len()),
    };
    proof {
        assert(urlv@.subrange(0, urlv@.len() as int) =~= urlv@);
    }
    let id = text::trim_end_char(&rest, '/');
    let titlev = chapter_title(chnode, idx);
    let title = foreign::string_from_chars(&titlev);
    let explicit = chnode.attr("data-chapter");
    let chapter = match explicit {
        Some(e) => chapnum::resolve_chapter_number(title.as_str(), idx + 1, Some(e.as_str())),
        None => chapnum::resolve_chapter_number(title.as_str(), idx + 1, None),
    };
    let date_updated = match chnode.attr("data-chapter-date") {
        Some(d) => {
            let dv = text::str_chars(d.as_str());
            let trimmed_date = text::trim(&dv);
            let ds = foreign::string_from_chars(&trimmed_date);
            let mut formats: Vec<dates::DateFormat> = Vec::new();
            formats.push(dates::DateFormat::DotDayMonthYear);
            let vocab = dates::russian_time_units();
            let e = dates::resolve_date(
                ds.as_str(),
                &formats,
                &vocab,
                "назад",
                now,
                dates::DateFallback::Now,
            );
            proof {
                assert(formats@ =~= seq![dates::DateFormat::DotDayMonthYear]);
            }
            e
        },
        None => now,
    };
    Some(
        Chapter {
            id: foreign::string_from_chars(&id),
            title,
            volume: None,
            chapter,
            date_updated,
            url: href.clone(),
            lang: String::from_str("ru"),
        },
    )
}

fn chapters_records(list: &Node, i: usize, manga_url: &Vec<char>, now: i64) -> (r: Vec<Chapter>)
    requires
        i <= list.sel("a.chapters__item"@).len(),
        0 <= now <= 300000000000,
    ensures
        chapters_match(
            r@,
            chapter_outputs_from(list.sel("a.chapters__item"@), i as int, manga_url@, now as int),
        ),
    decreases list.sel("a.chapters__item"@).len() - i,
{
    let count = list.select_count("a.chapters__item");
    if i >= count {
        Vec::new()
    } else {
        let chnode = list.select_nth("a.chapters__item", i);
        match chapter_record(chnode, i, manga_url, now) {
            Some(c) => {
                let mut r = chapters_records(list, i + 1, manga_url, now);
                r.insert(0, c);
                proof {
                    let fs = chapter_outputs_from(
                        list.sel("a.chapters__item"@),
                        i as int,
                        manga_url@,
                        now as int,
                    );
                    assert(forall|k: int| 1 <= k < fs.len() ==> fs[k] == fs.skip(1)[k - 1]);
                }
                r
            },
            None => chapters_records(list, i + 1, manga_url, now),
        }
    }
}

/// Parse the chapter list of a details document. A row without a link is
/// dropped; an absent chapter list yields an empty batch, not a failure.
/// `now` is the caller's clock reading, the fallback for unresolvable dates.
pub fn parse_chapters(html: &Node, manga_id: &str, base_url: &str, now: i64) -> (r: Option<
    Vec<Chapter>,
>)
    requires
        0 <= now <= 300000000000,
    ensures
        match r {
            Some(cs) => chapters_match(
                cs@,
                chapter_outputs_from(
                    chapter_nodes_of(*html),
                    0,
                    base_url@ + "/"@ + manga_id@,
                    now as int,
                ),
            ),
            None => false,
        },
{
    let manga_url = helpers::get_manga_url(base_url, manga_id);
    let manga_urlv = text::str_chars(manga_url.as_str());
    match html.select_first(
        "div.tabs__content div.tabs__page[data-page=chapters] div.chapters div.chapters__list",
    ) {
        Some(list) => Some(chapters_records(list, 0, &manga_urlv, now)),
        None => Some(Vec::new()),
    }
}

/// Page records carry the button texts in document order, indexed by
/// position.
pub open spec fn pages_match_nodes(ps: Seq<Page>, ns: Seq<Node>) -> bool {
    ps.len() == ns.len() && (forall|k: int|
        0 <= k < ps.len() ==> (#[trigger] ps[k]).index == k && ps[k].url@ == ns[k].text@)
}

fn pages_from(list: &Node, i: usize) -> (r: Vec<Page>)
    requires
        i <= list.sel("li.pagination__button"@).len(),
    ensures
        r@.len() == list.sel("li.pagination__button"@).len() - i,
        forall|k: int|
            0 <= k < r@.len() ==> (#[trigger] r@[k]).index == i + k && r@[k].url@ == list.sel(
                "li.pagination__button"@,
            )[i + k].text@,
    decreases list.sel("li.pagination__button"@).len() - i,
{
    let count = list.select_count("li.pagination__button");
    if i >= count {
        Vec::new()
    } else {
        let n = list.select_nth("li.pagination__button", i);
        let page = Page { index: i, url: n.text.clone() };
        let mut r = pages_from(list, i + 1);
        r.insert(0, page);
        r
    }
}

/// Parse a reader document into its page records: the pagination buttons in
/// order, each record carrying its position and the button's text. `None`
/// without a pagination container.
pub fn get_page_list(html: &Node) -> (r: Option<Vec<Page>>)
    ensures
        match r {
            Some(ps) => html.sel("ul.pagination"@).len() > 0 && pages_match_nodes(
                ps@,
                html.sel("ul.pagination"@)[0].sel("li.pagination__button"@),
            ),
            None => html.sel("ul.pagination"@).len() == 0,
        },
{
    match html.select_first("ul.pagination") {
        Some(list) => Some(pages_from(list, 0)),
        None => None,
    }
}

/// The query tokens contributed by the title filters among `filters[i..]`:
/// each contributes the query key and its percent-encoded text.
pub open spec fn title_additions_from(filters: Seq<Filter>, i: int) -> Seq<char>
    decreases filters.len() - i,
{
    if i < 0 || i >= filters.len() {
        Seq::empty()
    } else {
        let head = match filters[i].kind {
            FilterType::Title => match filters[i].value {
                FilterValue::Text(s) => "&q="@ + urlenc::encoded_from(s@, 0),
                _ => Seq::empty(),
            },
            _ => Seq::empty(),
        };
        head + title_additions_from(filters, i + 1)
    }
}

/// The search URL of this source: the base, the fixed search path with the
/// raw page number, and the title tokens; with no title filter the required
/// query key still stands, empty, so the endpoint's minimum contract holds.
pub open spec fn spec_filter_url(filters: Seq<Filter>, page: int, base: Seq<char>) -> Seq<char> {
    let adds = title_additions_from(filters, 0);
    let addition = if adds.len() == 0 {
        "&q="@
    } else {
        adds
    };
    base + "/search?type=manga&page="@ + text::dec_chars(page) + addition
}

fn title_additions(filters: &Vec<Filter>, i: usize) -> (r: Vec<char>)
    requires
        i <= filters@.len(),
    ensures
        r@ == title_additions_from(filters@, i as int),
    decreases filters@.len() - i,
{
    if i >= filters.len() {
        Vec::new()
    } else {
        let mut head: Vec<char> = Vec::new();
        match filters[i].kind {
            FilterType::Title => {
                match &filters[i].value {
                    FilterValue::Text(s) => {
                        let enc = urlenc::encode_uri(s.as_str());
                        head = text::str_chars("&q=");
                        let encv = text::str_chars(enc.as_str());
                        text::push_all(&mut head, &encv);
                    },
                    _ => {},
                }
            },
            _ => {},
        }
        let rest = title_additions(filters, i + 1);
        text::push_all(&mut head, &rest);
        head
    }
}

/// Build the search URL for a filter set and a 1-based page number.
pub fn get_filter_url(filters: &Vec<Filter>, page: i32, base_url: &str) -> (r: Option<String>)
    requires
        page >= 0,
    ensures
        match r {
            Some(u) => u@ == spec_filter_url(filters@, page as int, base_url@),
            None => false,
        },
{
    let mut out = text::str_chars(base_url);
    let path = text::str_chars("/search?type=manga&page=");
    text::push_all(&mut out, &path);
    let digits = text::uint_chars(page as u64);
    text::push_all(&mut out, &digits);
    let adds = title_additions(filters, 0);
    if adds.len() == 0 {
        let empty_q = text::str_chars("&q=");
        text::push_all(&mut out, &empty_q);
    } else {
        text::push_all(&mut out, &adds);
    }
    Some(foreign::string_from_chars(&out))
}

/// The query builder is deterministic and effect-free: one filter set, page
/// and base always serialize to the one string the serialization rule
/// denotes, so repeated invocations agree byte for byte.
pub proof fn lemma_filter_url_deterministic(
    f1: Seq<Filter>,
    f2: Seq<Filter>,
    page: int,
    base: Seq<char>,
)
    requires
        f1 == f2,
    ensures
        spec_filter_url(f1, page, base) == spec_filter_url(f2, page, base),
{
}

/// Splitting a trailing-run scan at a concatenation boundary: as long as the
/// right part keeps at least one character, the cut point of the whole is
/// the left part's length plus the right part's cut point.
proof fn lemma_trim_end_concat(s: Seq<char>, t: Seq<char>, c: char, j: int)
    requires
        0 <= j <= t.len(),
        text::trim_end_char_from(t, c, j) > 0,
    ensures
        text::trim_end_char_from(s + t, c, s.len() + j) == s.len() + text::trim_end_char_from(
            t,
            c,
            j,
        ),
    decreases j,
{
    if j > 0 {
        assert((s + t)[s.len() + j - 1] == t[j - 1]);
        if t[j - 1] == c {
            lemma_trim_end_concat(s, t, c, j - 1);
        }
    }
}

/// A chapter's derived identifier, rejoined to the publication's URL,
/// reproduces the link it was derived from, up to trailing slashes: for a link
/// under the publication whose remainder is not all slashes, the identifier
/// glued back after the publication URL equals the link with its trailing
/// slashes dropped.
pub proof fn lemma_chapter_id_round_trip(url: Seq<char>, manga_url: Seq<char>)
    requires
        text::starts_with(url, manga_url + "/"@),
        chapter_id_of(url, manga_url).len() > 0,
    ensures
        manga_url + "/"@ + chapter_id_of(url, manga_url) == text::trimmed_end_char(url, '/'),
{
    let pre = manga_url + "/"@;
    let rest = url.skip(pre.len() as int);
    assert(url =~= pre + rest);
    let cut = text::trim_end_char_from(rest, '/', rest.len() as int);
    text::lemma_trim_end_char_bounds(rest, '/', rest.len() as int);
    assert(chapter_id_of(url, manga_url) == rest.subrange(0, cut));
    assert(cut > 0);
    lemma_trim_end_concat(pre, rest, '/', rest.len() as int);
    assert(text::trim_end_char_from(url, '/', url.len() as int) == pre.len() + cut);
    assert(pre + rest.subrange(0, cut) =~= (pre + rest).subrange(0, pre.len() + cut));
}

/// Clone-marked elements never appear in output sequences: every record in a
/// card list's output is contributed by a card that does not carry the clone
/// marker, even when marked duplicates stand in the tree.
pub proof fn lemma_clone_marked_excluded(cards: Seq<Node>, base: Seq<char>, i: int)
    ensures
        forall|f: CardFields|
            card_outputs_from(cards, base, i).contains(f) ==> exists|j: int|
                i <= j < cards.len() && !dom::is_clone_marked(#[trigger] cards[j])
                    && card_fields(cards[j], base) == Some(f),
    decreases cards.len() - i,
{
    if i < 0 || i >= cards.len() {
    } else {
        lemma_clone_marked_excluded(cards, base, i + 1);
        let here = card_outputs_from(cards, base, i);
        let rest = card_outputs_from(cards, base, i + 1);
        assert forall|f: CardFields| here.contains(f) implies exists|j: int|
            i <= j < cards.len() && !dom::is_clone_marked(#[trigger] cards[j]) && card_fields(
                cards[j],
                base,
            ) == Some(f) by {
            if dom::is_clone_marked(cards[i]) {
                assert(rest.contains(f));
            } else {
                match card_fields(cards[i], base) {
                    Some(fi) => {
                        let k = choose|k: int| 0 <= k < here.len() && here[k] == f;
                        if k == 0 {
                            assert(!dom::is_clone_marked(cards[i]) && card_fields(cards[i], base)
                                == Some(f));
                        } else {
                            assert(rest[k - 1] == f);
                            assert(rest.contains(f));
                        }
                    },
                    None => {
                        assert(rest.contains(f));
                    },
                }
            }
        }
    }
}

} // verus!
