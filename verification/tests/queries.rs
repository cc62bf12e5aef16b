//! Query building, URL encoding, URL helpers, listing wrappers and deep
//! links on concrete values.

use mangaparse::filters::{Filter, FilterType, FilterValue};
use mangaparse::helpers;
use mangaparse::records::{create_manga_page_result, Manga, MangaStatus, ContentRating,
    ReadingDirection, SourceError};
use mangaparse::sorting::{Listing, Sorting};
use mangaparse::urlenc::encode_uri;
use mangaparse::{mangabuff, senkuro};

fn title_filter(q: &str) -> Filter {
    Filter { kind: FilterType::Title, value: FilterValue::Text(q.to_string()), id: None }
}

fn genre_filter(id: &str, state: i64) -> Filter {
    Filter {
        kind: FilterType::Genre,
        value: FilterValue::Number(state),
        id: Some(id.to_string()),
    }
}

fn check_filter(id: &str, state: i64) -> Filter {
    Filter {
        kind: FilterType::Check,
        value: FilterValue::Number(state),
        id: Some(id.to_string()),
    }
}

fn blank_manga() -> Manga {
    Manga {
        id: String::new(),
        cover: String::new(),
        title: String::new(),
        author: String::new(),
        artist: String::new(),
        description: String::new(),
        url: String::new(),
        categories: vec![],
        status: MangaStatus::Unknown,
        nsfw: ContentRating::Safe,
        viewer: ReadingDirection::SourceDefault,
    }
}

#[test]
fn encoder_escapes_spaces_and_multibyte() {
    assert_eq!(encode_uri("a b"), "a%20b");
    assert_eq!(encode_uri("я"), "%D1%8F");
    assert_eq!(encode_uri("x/y?=&#"), "x/y?=&#");
    assert_eq!(encode_uri("100%"), "100%25");
}

#[test]
fn grid_search_url_without_title_keeps_empty_query_key() {
    let filters: Vec<Filter> = vec![];
    let u = mangabuff::get_filter_url(&filters, 3, "https://mangabuff.ru").unwrap();
    assert_eq!(u, "https://mangabuff.ru/search?type=manga&page=3&q=");
}

#[test]
fn grid_search_url_encodes_title() {
    let filters = vec![title_filter("naru to")];
    let u = mangabuff::get_filter_url(&filters, 1, "https://mangabuff.ru").unwrap();
    assert_eq!(u, "https://mangabuff.ru/search?type=manga&page=1&q=naru%20to");
}

#[test]
fn grid_search_url_is_deterministic() {
    // One filter set serializes to byte-identical output on every call.
    let filters = vec![title_filter("тест"), genre_filter("tags[1]", 1)];
    let a = mangabuff::get_filter_url(&filters, 2, "https://mangabuff.ru").unwrap();
    let b = mangabuff::get_filter_url(&filters, 2, "https://mangabuff.ru").unwrap();
    assert_eq!(a, b);
}

#[test]
fn browse_url_carries_offset_and_sort() {
    let filters: Vec<Filter> = vec![];
    let u = senkuro::get_filter_url(&filters, &Sorting::Rating, 1).unwrap();
    assert_eq!(u, "https://senkuro.me/browse/manga/offset=0&sortType=rating");
    let u3 = senkuro::get_filter_url(&filters, &Sorting::UpdatedRecently, 3).unwrap();
    assert_eq!(u3, "https://senkuro.me/browse/manga/offset=100&sortType=latest");
}

#[test]
fn browse_url_moves_query_token_first() {
    let filters = vec![genre_filter("tags[3]", 1), title_filter("abc"), genre_filter("tags[4]", 0)];
    let u = senkuro::get_filter_url(&filters, &Sorting::Popular, 2).unwrap();
    assert_eq!(
        u,
        "https://senkuro.me/browse/manga/q=abc&offset=50&sortType=views&tags[3]=in&tags[4]=out"
    );
}

#[test]
fn browse_url_checked_options_and_skipped_values() {
    let filters = vec![
        check_filter("licensed", 1),
        check_filter("ignored", 0),
        genre_filter("skipped", 7),
    ];
    let u = senkuro::get_filter_url(&filters, &Sorting::Rating, 1).unwrap();
    assert_eq!(u, "https://senkuro.me/browse/manga/offset=0&sortType=rating&licensed=in");
}

#[test]
fn browse_url_is_deterministic() {
    let filters = vec![title_filter("сенкуро"), check_filter("a", 1)];
    let a = senkuro::get_filter_url(&filters, &Sorting::Popular, 4).unwrap();
    let b = senkuro::get_filter_url(&filters, &Sorting::Popular, 4).unwrap();
    assert_eq!(a, b);
}

#[test]
fn sorting_follows_listing_names() {
    let l = |name: &str| Listing { name: name.to_string() };
    assert!(matches!(Sorting::from_listing(&l("Рейтинг")), Sorting::Rating));
    assert!(matches!(Sorting::from_listing(&l("Популярное")), Sorting::Popular));
    assert!(matches!(
        Sorting::from_listing(&l("Обновлено недавно")),
        Sorting::UpdatedRecently
    ));
    assert!(matches!(Sorting::from_listing(&l("что-то ещё")), Sorting::Rating));
}

#[test]
fn sorting_parameters_are_fixed_words() {
    assert_eq!(Sorting::Rating.param(), "rating");
    assert_eq!(Sorting::Popular.param(), "views");
    assert_eq!(Sorting::UpdatedRecently.param(), "latest");
}

#[test]
fn full_page_signals_more() {
    // Exactly the configured page size sets the continuation flag.
    let batch: Vec<Manga> = (0..50).map(|_| blank_manga()).collect();
    let r = create_manga_page_result(batch);
    assert!(r.has_more);
    assert_eq!(r.manga.len(), 50);
}

#[test]
fn short_page_signals_no_more() {
    let batch: Vec<Manga> = (0..49).map(|_| blank_manga()).collect();
    assert!(!create_manga_page_result(batch).has_more);
    let over: Vec<Manga> = (0..51).map(|_| blank_manga()).collect();
    assert!(!create_manga_page_result(over).has_more);
}

#[test]
fn base_url_override_only_when_non_empty() {
    assert_eq!(helpers::get_base_url(Some("https://mirror.example"), "https://d"), "https://mirror.example");
    assert_eq!(helpers::get_base_url(Some(""), "https://d"), "https://d");
    assert_eq!(helpers::get_base_url(None, "https://d"), "https://d");
}

#[test]
fn url_joiners_compose_identifiers() {
    assert_eq!(helpers::get_manga_url("https://s", "slug"), "https://s/slug");
    assert_eq!(
        helpers::get_chapter_url("https://s", "slug", "42"),
        "https://s/slug/42?mtr=true"
    );
}

#[test]
fn deep_link_takes_first_path_segment() {
    assert_eq!(
        senkuro::parse_incoming_url("https://senkuro.me/my-title/chapters").unwrap(),
        "my-title"
    );
    assert_eq!(senkuro::parse_incoming_url("senkuro.me/solo").unwrap(), "solo");
}

#[test]
fn deep_link_without_segment_is_not_found() {
    assert_eq!(
        senkuro::parse_incoming_url("https://senkuro.me").err(),
        Some(SourceError::NotFound)
    );
    assert_eq!(
        senkuro::parse_incoming_url("https://senkuro.me/").err(),
        Some(SourceError::NotFound)
    );
}

#[test]
fn grid_identifier_derives_from_url() {
    let chars = |s: &str| s.chars().collect::<Vec<char>>();
    let base = chars("https://mangabuff.ru");
    let id = mangabuff::get_manga_id(&chars("https://mangabuff.ru/naruto/"), &base).unwrap();
    assert_eq!(id.iter().collect::<String>(), "naruto");
    let id2 = mangabuff::get_manga_id(&chars("/bleach"), &base).unwrap();
    assert_eq!(id2.iter().collect::<String>(), "bleach");
    assert!(mangabuff::get_manga_id(&chars("/"), &base).is_none());
}

#[test]
fn grid_thumbnail_comes_from_style_attribute() {
    let chars = |s: &str| s.chars().collect::<Vec<char>>();
    let u = mangabuff::get_manga_thumb_url(&chars("background-image: url('/img/a.jpg');"))
        .unwrap();
    assert_eq!(u.iter().collect::<String>(), "/img/a.jpg");
    assert!(mangabuff::get_manga_thumb_url(&chars("color: red")).is_none());
    assert!(mangabuff::get_manga_thumb_url(&chars("url(broken")).is_none());
}

#[test]
fn parsing_error_constructor_names_the_failure() {
    assert_eq!(mangaparse::records::create_parsing_error(), SourceError::ParseFailure);
}
