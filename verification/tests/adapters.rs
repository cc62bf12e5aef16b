//! The two site adapters on hand-built document trees.

use mangaparse::dom::Node;
use mangaparse::mangabuff::{parse_status, parse_viewer};
use mangaparse::records::{MangaStatus, ReadingDirection, SourceError};
use mangaparse::{mangabuff, senkuro};

fn node(text: &str, data: &str, attrs: &[(&str, &str)], queries: Vec<(&str, Vec<Node>)>) -> Node {
    Node {
        attrs: attrs.iter().map(|(k, v)| (k.to_string(), v.to_string())).collect(),
        text: text.to_string(),
        data: data.to_string(),
        queries: queries.into_iter().map(|(s, ns)| (s.to_string(), ns)).collect(),
    }
}

fn textual(text: &str) -> Node {
    node(text, "", &[], vec![])
}

fn listing_card(href: &str, style: &str, name: &str, class: Option<&str>) -> Node {
    let mut attrs: Vec<(&str, &str)> = vec![("href", href)];
    if let Some(c) = class {
        attrs.push(("class", c));
    }
    node(
        "",
        "",
        &attrs,
        vec![
            ("div.cards__img", vec![node("", "", &[("style", style)], vec![])]),
            ("div.cards__name", vec![textual(name)]),
        ],
    )
}

#[test]
fn listing_extracts_cards() {
    let card = listing_card(
        "https://mangabuff.ru/naruto",
        "background-image: url('/img/naruto.jpg')",
        "Naruto",
        None,
    );
    let doc = node("", "", &[], vec![("div.cards", vec![node("", "", &[], vec![(
        "a.cards__item",
        vec![card],
    )])])]);
    let ms = mangabuff::parse_manga_list(&doc, "https://mangabuff.ru").unwrap();
    assert_eq!(ms.len(), 1);
    assert_eq!(ms[0].id, "naruto");
    assert_eq!(ms[0].cover, "/img/naruto.jpg");
    assert_eq!(ms[0].title, "Naruto");
    assert_eq!(ms[0].url, "https://mangabuff.ru/naruto");
    assert_eq!(ms[0].status, MangaStatus::Unknown);
}

#[test]
fn listing_excludes_clone_marked_duplicates() {
    // The same card stands twice, once carrying the clone marker: only the
    // unmarked one reaches the output.
    let real = listing_card("/one-piece", "url(/img/op.jpg)", "One Piece", None);
    let dup = listing_card("/one-piece", "url(/img/op.jpg)", "One Piece", Some("cards__item cloned"));
    let doc = node("", "", &[], vec![("div.cards", vec![node("", "", &[], vec![(
        "a.cards__item",
        vec![dup, real],
    )])])]);
    let ms = mangabuff::parse_manga_list(&doc, "https://mangabuff.ru").unwrap();
    assert_eq!(ms.len(), 1);
    assert_eq!(ms[0].id, "one-piece");
}

#[test]
fn listing_drops_incomplete_cards_and_keeps_batch() {
    let broken = node("", "", &[("href", "/x")], vec![]);
    let good = listing_card("/berserk", "url(\"/img/b.jpg\")", "Berserk", None);
    let doc = node("", "", &[], vec![("div.cards", vec![node("", "", &[], vec![(
        "a.cards__item",
        vec![broken, good],
    )])])]);
    let ms = mangabuff::parse_manga_list(&doc, "https://mangabuff.ru").unwrap();
    assert_eq!(ms.len(), 1);
    assert_eq!(ms[0].cover, "/img/b.jpg");
}

#[test]
fn listing_of_nothing_is_none() {
    let doc = node("", "", &[], vec![]);
    assert!(mangabuff::parse_manga_list(&doc, "https://mangabuff.ru").is_none());
}

fn details_doc(with_img_block: bool, with_og: bool) -> Node {
    let status_link = node(
        "Завершено",
        "",
        &[("href", "/manga?status_id=3")],
        vec![],
    );
    let type_link = node("Манхва", "", &[("href", "/types/2")], vec![]);
    let links_block = node("", "", &[], vec![(
        "a.manga__middle-link",
        vec![type_link, status_link],
    )]);
    let mut main_queries: Vec<(&str, Vec<Node>)> = vec![
        ("h1.manga__name", vec![textual("Башня")]),
        ("div.manga__middle div.manga__middle-links", vec![links_block]),
    ];
    if with_img_block {
        let img = node("", "", &[("data-src", "/covers/tower.jpg")], vec![]);
        main_queries.push(("div.manga__img", vec![node("", "", &[], vec![("img", vec![img])])]));
    }
    let main = node("", "", &[], main_queries);
    let tags = node("", "", &[], vec![(
        "a.tags__item",
        vec![textual(" Боевик "), textual("Драма")],
    )]);
    let mut doc_queries: Vec<(&str, Vec<Node>)> = vec![
        ("div.manga", vec![main]),
        (
            "div.tabs__content div.tabs__page[data-page=info] div.manga__description",
            vec![textual("Долгая история.")],
        ),
        ("div.tags", vec![tags]),
    ];
    if with_og {
        doc_queries.push((
            "meta[property=og:image]",
            vec![node("", "", &[("content", "https://cdn.x/og.jpg")], vec![])],
        ));
    }
    node("", "", &[], doc_queries)
}

#[test]
fn details_resolves_every_field() {
    let doc = details_doc(true, false);
    let m = mangabuff::parse_manga(&doc, "tower".to_string(), "https://mangabuff.ru").unwrap();
    assert_eq!(m.id, "tower");
    assert_eq!(m.cover, "https://mangabuff.ru/covers/tower.jpg");
    assert_eq!(m.title, "Башня");
    assert_eq!(m.url, "https://mangabuff.ru/tower");
    assert_eq!(m.description, "Долгая история.");
    assert_eq!(m.categories, vec!["Боевик".to_string(), "Драма".to_string()]);
    assert_eq!(m.status, MangaStatus::Completed);
    assert_eq!(m.viewer, ReadingDirection::VerticalScroll);
    assert_eq!(m.author, "");
}

#[test]
fn details_falls_back_to_page_metadata_image() {
    // No image block anywhere: the page-metadata image stands in unchanged.
    let doc = details_doc(false, true);
    let m = mangabuff::parse_manga(&doc, "tower".to_string(), "https://mangabuff.ru").unwrap();
    assert_eq!(m.cover, "https://cdn.x/og.jpg");
    assert_eq!(m.title, "Башня");
}

#[test]
fn details_cover_prefers_data_src_over_src() {
    // With both attributes present, the deferred-loading attribute wins the
    // fallback chain; the plain one is only a fallback.
    let img = node(
        "",
        "",
        &[("src", "/covers/placeholder.gif"), ("data-src", "/covers/real.jpg")],
        vec![],
    );
    let main = node("", "", &[], vec![
        ("h1.manga__name", vec![textual("Башня")]),
        ("div.manga__img", vec![node("", "", &[], vec![("img", vec![img])])]),
    ]);
    let doc = node("", "", &[], vec![
        ("div.manga", vec![main]),
        (
            "div.tabs__content div.tabs__page[data-page=info] div.manga__description",
            vec![textual("Текст.")],
        ),
    ]);
    let m = mangabuff::parse_manga(&doc, "tower".to_string(), "https://mangabuff.ru").unwrap();
    assert_eq!(m.cover, "https://mangabuff.ru/covers/real.jpg");
}

#[test]
fn details_cover_falls_back_to_plain_src() {
    let img = node("", "", &[("src", "/covers/plain.jpg")], vec![]);
    let main = node("", "", &[], vec![
        ("h1.manga__name", vec![textual("Башня")]),
        ("div.manga__img", vec![node("", "", &[], vec![("img", vec![img])])]),
    ]);
    let doc = node("", "", &[], vec![
        ("div.manga", vec![main]),
        (
            "div.tabs__content div.tabs__page[data-page=info] div.manga__description",
            vec![textual("Текст.")],
        ),
    ]);
    let m = mangabuff::parse_manga(&doc, "tower".to_string(), "https://mangabuff.ru").unwrap();
    assert_eq!(m.cover, "https://mangabuff.ru/covers/plain.jpg");
}

#[test]
fn details_without_main_container_fails() {
    let doc = node("", "", &[], vec![]);
    assert!(mangabuff::parse_manga(&doc, "x".to_string(), "https://mangabuff.ru").is_none());
}

#[test]
fn details_without_cover_chain_fails() {
    let doc = details_doc(false, false);
    assert!(mangabuff::parse_manga(&doc, "x".to_string(), "https://mangabuff.ru").is_none());
}

fn chapter_row(href: &str, name: Option<&str>, explicit: Option<&str>, date: Option<&str>) -> Node {
    let mut attrs: Vec<(&str, &str)> = vec![("href", href)];
    if let Some(e) = explicit {
        attrs.push(("data-chapter", e));
    }
    if let Some(d) = date {
        attrs.push(("data-chapter-date", d));
    }
    let mut queries: Vec<(&str, Vec<Node>)> = vec![];
    if let Some(t) = name {
        queries.push(("div.chapters__name", vec![textual(t)]));
    }
    node("", "", &attrs, queries)
}

fn chapters_doc(rows: Vec<Node>) -> Node {
    let list = node("", "", &[], vec![("a.chapters__item", rows)]);
    node("", "", &[], vec![(
        "div.tabs__content div.tabs__page[data-page=chapters] div.chapters div.chapters__list",
        vec![list],
    )])
}

#[test]
fn chapters_resolve_number_date_and_identifier() {
    let now: i64 = 1700000000;
    let row = chapter_row(
        "https://mangabuff.ru/naruto/v1-c2/",
        Some(" Глава вторая "),
        Some("2.5"),
        Some("24.12.2023"),
    );
    let doc = chapters_doc(vec![row]);
    let cs = mangabuff::parse_chapters(&doc, "naruto", "https://mangabuff.ru", now).unwrap();
    assert_eq!(cs.len(), 1);
    assert_eq!(cs[0].id, "v1-c2");
    assert_eq!(cs[0].title, "Глава вторая");
    assert_eq!(cs[0].chapter, 2500);
    assert_eq!(cs[0].date_updated, 1703376000);
    assert_eq!(cs[0].url, "https://mangabuff.ru/naruto/v1-c2/");
    assert_eq!(cs[0].lang, "ru");
    assert!(cs[0].volume.is_none());
    // The derived identifier rejoined to the publication URL reproduces the
    // link up to its trailing slash.
    let rejoined = format!("https://mangabuff.ru/naruto/{}", cs[0].id);
    assert_eq!(rejoined, cs[0].url.trim_end_matches('/'));
}

#[test]
fn chapters_unresolvable_date_falls_back_to_now() {
    let now: i64 = 1700000000;
    let row = chapter_row("/naruto/c3", Some("Глава 3"), None, Some("вчера"));
    let doc = chapters_doc(vec![row]);
    let cs = mangabuff::parse_chapters(&doc, "naruto", "https://mangabuff.ru", now).unwrap();
    assert_eq!(cs[0].date_updated, now);
    assert_eq!(cs[0].chapter, 3000);
}

#[test]
fn chapters_without_link_are_dropped() {
    let now: i64 = 1700000000;
    let no_href = node("", "", &[], vec![]);
    let ok = chapter_row("/naruto/c1", Some("Глава 1"), None, None);
    let doc = chapters_doc(vec![no_href, ok]);
    let cs = mangabuff::parse_chapters(&doc, "naruto", "https://mangabuff.ru", now).unwrap();
    assert_eq!(cs.len(), 1);
    assert_eq!(cs[0].date_updated, now);
}

#[test]
fn chapters_untitled_row_gets_numbered_default() {
    let now: i64 = 1700000000;
    let row = chapter_row("/naruto/c9", None, Some("9"), None);
    let doc = chapters_doc(vec![row]);
    let cs = mangabuff::parse_chapters(&doc, "naruto", "https://mangabuff.ru", now).unwrap();
    assert_eq!(cs[0].title, "Глава 1");
    assert_eq!(cs[0].chapter, 9000);
}

#[test]
fn chapters_missing_list_is_empty_batch() {
    let now: i64 = 1700000000;
    let doc = node("", "", &[], vec![]);
    let cs = mangabuff::parse_chapters(&doc, "naruto", "https://mangabuff.ru", now).unwrap();
    assert!(cs.is_empty());
}

#[test]
fn reader_pages_are_indexed_button_texts() {
    let list = node("", "", &[], vec![(
        "li.pagination__button",
        vec![textual("/p/1.jpg"), textual("/p/2.jpg")],
    )]);
    let doc = node("", "", &[], vec![("ul.pagination", vec![list])]);
    let ps = mangabuff::get_page_list(&doc).unwrap();
    assert_eq!(ps.len(), 2);
    assert_eq!(ps[0].index, 0);
    assert_eq!(ps[0].url, "/p/1.jpg");
    assert_eq!(ps[1].index, 1);
    assert_eq!(ps[1].url, "/p/2.jpg");
}

#[test]
fn reader_pages_without_container_fail() {
    let doc = node("", "", &[], vec![]);
    assert!(mangabuff::get_page_list(&doc).is_none());
}

fn search_card(href: &str, img_src: &str, title: &str, tags: Vec<&str>) -> Node {
    let img = node("", "", &[("src", img_src)], vec![]);
    let a = node("", "", &[("href", href)], vec![("img", vec![img])]);
    let tag_nodes: Vec<Node> = tags.into_iter().map(textual).collect();
    let status_down = node("", "", &[], vec![("span.tag", tag_nodes)]);
    node("", "", &[], vec![
        ("a", vec![a]),
        ("h3.card-title", vec![textual(title)]),
        ("div.card-status__down", vec![status_down]),
    ])
}

#[test]
fn search_results_derive_identifier_and_drop_noise_tags() {
    let card = search_card(
        "/manga/my-hero/chapters",
        "https://cdn.s/hero.jpg",
        "My Hero",
        vec!["9.2", " Боевик ", "2021"],
    );
    let doc = node("", "", &[], vec![("article.card-main", vec![card])]);
    let ms = senkuro::parse_search_results(&doc, "https://senkuro.me").unwrap();
    assert_eq!(ms.len(), 1);
    assert_eq!(ms[0].id, "my-hero");
    assert_eq!(ms[0].cover, "https://cdn.s/hero.jpg");
    assert_eq!(ms[0].title, "My Hero");
    assert_eq!(ms[0].url, "https://senkuro.me/my-hero");
    assert_eq!(ms[0].categories, vec!["Боевик".to_string()]);
    assert_eq!(ms[0].viewer, ReadingDirection::RightToLeft);
}

#[test]
fn search_results_empty_batch_is_ok() {
    let doc = node("", "", &[], vec![]);
    let ms = senkuro::parse_search_results(&doc, "https://senkuro.me").unwrap();
    assert!(ms.is_empty());
}

#[test]
fn senkuro_details_map_status_words() {
    let item = node("", "", &[], vec![
        (".project-stats__text", vec![textual("Статус тайтла")]),
        (".project-stats__name", vec![textual("Завершён")]),
    ]);
    let doc = node("", "", &[], vec![
        (".project-stats__item", vec![item]),
        (".text-expander__collapse p", vec![textual(" Первый. "), textual("Второй.")]),
        (".project-tags a > span", vec![textual(" Сэйнэн "), textual("18")]),
    ]);
    let m = senkuro::parse_manga(&doc, "slug".to_string(), "https://senkuro.me").unwrap();
    // The status word is matched case-insensitively: the markup's capital
    // letter must not defeat the vocabulary.
    assert_eq!(m.status, MangaStatus::Completed);
    assert_eq!(m.description, "Первый.\nВторой.");
    assert_eq!(m.categories, vec!["Сэйнэн".to_string()]);
    assert_eq!(m.cover, "");
    assert_eq!(m.url, "https://senkuro.me/slug");
}

#[test]
fn senkuro_details_degrade_to_empty_fields() {
    // A document missing only optional blocks yields empty fields, never a
    // failure.
    let doc = node("", "", &[], vec![]);
    let m = senkuro::parse_manga(&doc, "slug".to_string(), "https://senkuro.me").unwrap();
    assert_eq!(m.title, "");
    assert_eq!(m.cover, "");
    assert!(m.categories.is_empty());
    assert_eq!(m.status, MangaStatus::Unknown);
}

#[test]
fn senkuro_main_node_absence_is_parse_failure() {
    let doc = node("", "", &[], vec![]);
    assert_eq!(
        senkuro::get_manga_page_main_node(&doc).err(),
        Some(SourceError::ParseFailure)
    );
    let with_main = node("", "", &[], vec![("div.leftContent", vec![textual("x")])]);
    assert!(senkuro::get_manga_page_main_node(&with_main).is_ok());
}

fn senkuro_chapter_card(href: &str, heading: &str, when: Option<&str>) -> Node {
    let h3 = textual(heading);
    let link = node("", "", &[("href", href)], vec![("h3", vec![h3])]);
    let mut queries: Vec<(&str, Vec<Node>)> = vec![("a.card-chapter__link", vec![link])];
    if let Some(w) = when {
        queries.push(("span", vec![textual(w)]));
    }
    node("", "", &[], queries)
}

#[test]
fn senkuro_chapters_split_heading_and_derive_identifier() {
    let now: i64 = 1700000000;
    let card = senkuro_chapter_card(
        "/manga/sinmadaeje/chapters/197198132029703703/pages/1",
        "Том 2 > Глава 15 Финал",
        Some("2023-12-24"),
    );
    let doc = node("", "", &[], vec![(".chapter-result > article.card-chapter", vec![card])]);
    let cs = senkuro::parse_chapters(&doc, "sinmadaeje", "https://senkuro.me", now).unwrap();
    assert_eq!(cs.len(), 1);
    assert_eq!(cs[0].id, "197198132029703703");
    assert_eq!(cs[0].title, "Глава 15 Финал");
    assert_eq!(cs[0].volume, Some(2000));
    assert_eq!(cs[0].chapter, 15000);
    assert_eq!(cs[0].date_updated, 1703376000);
    assert_eq!(
        cs[0].url,
        "https://senkuro.me/sinmadaeje/197198132029703703?mtr=true"
    );
}

#[test]
fn senkuro_chapters_without_numbers_or_date_use_zeroes() {
    let now: i64 = 1700000000;
    let card = senkuro_chapter_card("/manga/x/chapters/42/pages/1", "Пролог", None);
    let doc = node("", "", &[], vec![(".chapter-result > article.card-chapter", vec![card])]);
    let cs = senkuro::parse_chapters(&doc, "x", "https://senkuro.me", now).unwrap();
    assert_eq!(cs[0].volume, None);
    assert_eq!(cs[0].chapter, 0);
    // Unresolvable dates on this source sort last, not most recent.
    assert_eq!(cs[0].date_updated, 0);
}

#[test]
fn senkuro_reader_script_yields_page_urls() {
    let mut data = String::from("var x = 1; rm_h.readerDoInit([[");
    data.push_str("['https://one.cdn/','','img/01.jpg\",1],");
    data.push_str("['https://two.cdn/','/manga/abc/',\"img/02.jpg\",2],");
    data.push_str("['','','/static/pic.png\",3],");
    data.push_str("['https://one-way.work/v/','','03.jpg?token=5\",4],");
    data.push_str("['//bare.cdn/','','04.jpg\",5]");
    data.push_str("]])");
    let script = node("", &data, &[], vec![]);
    let doc = node("", "", &[], vec![(
        "div.reader-controller > script[type=text/javascript]",
        vec![script],
    )]);
    let ps = senkuro::get_page_list(&doc, "https://senkuro.me").unwrap();
    let urls: Vec<&str> = ps.iter().map(|p| p.url.as_str()).collect();
    assert_eq!(urls, vec![
        "https://one.cdn/img/01.jpg",
        "https://two.cdn/img/02.jpg",
        "https://senkuro.me/static/pic.png",
        "https://one-way.work/v/03.jpg",
        "https://bare.cdn/04.jpg",
    ]);
    assert_eq!(ps[2].index, 2);
}

#[test]
fn senkuro_reader_without_script_is_parse_failure() {
    let doc = node("", "", &[], vec![]);
    assert_eq!(
        senkuro::get_page_list(&doc, "https://senkuro.me").err(),
        Some(SourceError::ParseFailure)
    );
}

#[test]
fn senkuro_reader_without_brackets_is_parse_failure() {
    let script = node("", "rm_h.readerDoInit(nothing here)", &[], vec![]);
    let doc = node("", "", &[], vec![(
        "div.reader-controller > script[type=text/javascript]",
        vec![script],
    )]);
    assert!(senkuro::get_page_list(&doc, "https://senkuro.me").is_err());
}

#[test]
fn status_vocabulary_covers_every_variant() {
    let chars = |s: &str| s.chars().collect::<Vec<char>>();
    assert_eq!(parse_status(&chars("Завершён")), MangaStatus::Completed);
    assert_eq!(parse_status(&chars("Продолжается")), MangaStatus::Ongoing);
    assert_eq!(parse_status(&chars("Заморожено")), MangaStatus::Hiatus);
    assert_eq!(parse_status(&chars("Заброшен")), MangaStatus::Cancelled);
    assert_eq!(parse_status(&chars("что-то")), MangaStatus::Unknown);
}

#[test]
fn direction_vocabulary_maps_publication_types() {
    let chars = |s: &str| s.chars().collect::<Vec<char>>();
    assert_eq!(parse_viewer(&chars("Манхва")), ReadingDirection::VerticalScroll);
    assert_eq!(parse_viewer(&chars("Комикс Западный")), ReadingDirection::LeftToRight);
    assert_eq!(parse_viewer(&chars("Манга")), ReadingDirection::SourceDefault);
}

#[test]
fn senkuro_status_words_cover_hiatus_and_ongoing() {
    let item = |status: &str| {
        node("", "", &[], vec![
            (".project-stats__text", vec![textual("Статус тайтла")]),
            (".project-stats__name", vec![textual(status)]),
        ])
    };
    let doc = |status: &str| node("", "", &[], vec![(".project-stats__item", vec![item(status)])]);
    let status_of = |s: &str| {
        senkuro::parse_manga(&doc(s), "x".to_string(), "https://senkuro.me").unwrap().status
    };
    assert_eq!(status_of("Онгоинг"), MangaStatus::Ongoing);
    assert_eq!(status_of("Приостановлен"), MangaStatus::Hiatus);
    assert_eq!(status_of("Анонс"), MangaStatus::Unknown);
}
