use reddit_api_scraper::api_scraper::{
    collect_children_as_string, escape_special_characters, get_api_from_api_details,
    get_request_body_from_api_details, get_uri_from_api_details, section_file_name, uri_prototype_into_concrete,
    verb_of_fragment, word_before_underscore, DetailBlock, InlineNode, ParameterRow,
};
use reddit_api_scraper::field_map::FieldMap;
use reddit_api_scraper::http_verb::HttpVerb;
use reddit_api_scraper::template_uri::{extract_parameters, TemplateUri};
use reddit_api_scraper::text::strip_variant_marker;

fn text(s: &str) -> InlineNode {
    InlineNode::Text(s.to_string())
}

fn element(name: &str, inner: &str) -> InlineNode {
    InlineNode::Element { name: name.to_string(), inner_html: inner.to_string() }
}

fn sorted_parameters(route: &TemplateUri) -> Vec<(String, String)> {
    let mut entries = route.parameters.entries();
    entries.sort();
    entries
}

fn pairs(items: &[(&str, &str)]) -> Vec<(String, String)> {
    items.iter().map(|(k, v)| (k.to_string(), v.to_string())).collect()
}

fn block(variants: Vec<Vec<InlineNode>>, signatures: Vec<Vec<InlineNode>>, rows: Vec<ParameterRow>) -> DetailBlock {
    DetailBlock { uri_variants: variants, signatures, parameter_rows: rows }
}

fn wiki_rows() -> Vec<ParameterRow> {
    vec![ParameterRow { name: "page".to_string(), description: Some("the wiki page name".to_string()) }]
}

#[test]
fn optional_section_gives_two_routes_in_order() {
    let routes = uri_prototype_into_concrete("[/r/{{subreddit}}]/about/banned", FieldMap::new());
    assert_eq!(routes.len(), 2);
    assert_eq!(routes[0].template, "/about/banned");
    assert_eq!(routes[1].template, "/r/{{subreddit}}/about/banned");
    assert!(routes[0].parameters.is_empty());
    assert_eq!(sorted_parameters(&routes[1]), pairs(&[("{{subreddit}}", "subreddit")]));
}

#[test]
fn bracket_free_template_expands_to_itself() {
    let first = uri_prototype_into_concrete("[/r/{{subreddit}}]/about/banned", FieldMap::new());
    for route in &first {
        let again = uri_prototype_into_concrete(&route.template, FieldMap::new());
        assert_eq!(again.len(), 1);
        assert_eq!(again[0].template, route.template);
        assert_eq!(sorted_parameters(&again[0]), sorted_parameters(route));
    }
    let single = uri_prototype_into_concrete("/api/v1/me", FieldMap::new());
    assert_eq!(single.len(), 1);
    assert_eq!(single[0].template, "/api/v1/me");
    assert!(single[0].parameters.is_empty());
}

#[test]
fn parameters_match_placeholders_of_template() {
    let routes = uri_prototype_into_concrete("/r/{{subreddit}}/{{where}}/x{{subreddit}}/{{a-b}}/{{}}", FieldMap::new());
    assert_eq!(routes.len(), 1);
    assert_eq!(
        sorted_parameters(&routes[0]),
        pairs(&[("{{subreddit}}", "subreddit"), ("{{where}}", "where")])
    );
    let nested = extract_parameters("{{{id}}}");
    assert_eq!(nested.entries(), pairs(&[("{{id}}", "id")]));
}

#[test]
fn placeholder_only_in_section_is_absent_without_it() {
    let routes = uri_prototype_into_concrete("[/by_id/{{names}}]/{{id}}", FieldMap::new());
    assert_eq!(routes[0].template, "/{{id}}");
    assert_eq!(sorted_parameters(&routes[0]), pairs(&[("{{id}}", "id")]));
    assert_eq!(routes[1].template, "/by_id/{{names}}/{{id}}");
    assert_eq!(sorted_parameters(&routes[1]), pairs(&[("{{id}}", "id"), ("{{names}}", "names")]));
}

#[test]
fn request_fields_are_attached_to_every_variant() {
    let mut fields = FieldMap::new();
    fields.insert("page".to_string(), "the wiki page name".to_string());
    let routes = uri_prototype_into_concrete("[/r/{{subreddit}}]/api/wiki/edit", fields);
    assert_eq!(routes.len(), 2);
    for route in &routes {
        assert_eq!(route.request_fields.entries(), pairs(&[("page", "the wiki page name")]));
    }
}

#[test]
fn flattening_nothing_gives_absence() {
    assert_eq!(collect_children_as_string(&vec![]), None);
    assert_eq!(collect_children_as_string(&vec![element("span", "note"), element("a", "link"), text("")]), None);
}

#[test]
fn flattening_renders_placeholders_and_drops_annotations() {
    let children = vec![
        text("/api/"),
        element("em", "action"),
        element("a", "#"),
        text("/"),
        element("span", "(beta)"),
        element("code", "x"),
    ];
    assert_eq!(collect_children_as_string(&children), Some("/api/{{action}}/x".to_string()));
    assert_eq!(collect_children_as_string(&vec![element("em", "")]), Some("{{}}".to_string()));
}

#[test]
fn block_without_signature_or_variants_gives_no_routes() {
    let empty = block(vec![], vec![], wiki_rows());
    assert!(get_uri_from_api_details(&vec![empty], &HttpVerb::POST).is_empty());
    let blank_heading = block(vec![], vec![vec![element("span", "x")]], vec![]);
    assert_eq!(get_api_from_api_details(&blank_heading), None);
    assert!(get_uri_from_api_details(&vec![blank_heading], &HttpVerb::GET).is_empty());
    assert!(get_uri_from_api_details(&vec![], &HttpVerb::GET).is_empty());
}

#[test]
fn request_fields_only_for_body_carrying_method() {
    let signature = || vec![vec![text("/api/wiki/edit")]];
    let post = get_uri_from_api_details(&vec![block(vec![], signature(), wiki_rows())], &HttpVerb::POST);
    assert_eq!(post.len(), 1);
    assert_eq!(post[0].request_fields.entries(), pairs(&[("page", "the wiki page name")]));
    assert_eq!(post[0].request_fields.get("page"), Some("the wiki page name".to_string()));
    let get = get_uri_from_api_details(&vec![block(vec![], signature(), wiki_rows())], &HttpVerb::GET);
    assert_eq!(get.len(), 1);
    assert!(get[0].request_fields.is_empty());
    let put = get_uri_from_api_details(&vec![block(vec![], signature(), wiki_rows())], &HttpVerb::PUT);
    assert_eq!(put[0].request_fields.entries(), pairs(&[("page", "the wiki page name")]));
    let delete = get_uri_from_api_details(&vec![block(vec![], signature(), wiki_rows())], &HttpVerb::DELETE);
    assert!(delete[0].request_fields.is_empty());
}

#[test]
fn signature_block_resolves_to_one_route() {
    let signature = vec![vec![text("/api/"), element("em", "action"), text("/"), element("em", "id")]];
    let routes = get_uri_from_api_details(&vec![block(vec![], signature, vec![])], &HttpVerb::GET);
    assert_eq!(routes.len(), 1);
    assert_eq!(routes[0].template, "/api/{{action}}/{{id}}");
    assert_eq!(sorted_parameters(&routes[0]), pairs(&[("{{action}}", "action"), ("{{id}}", "id")]));
    assert!(routes[0].request_fields.is_empty());
}

#[test]
fn variant_list_items_are_expanded_in_order() {
    let variants = vec![
        vec![text("→ [/r/"), element("em", "subreddit"), text("]/about/banned ")],
        vec![text("→ /about/"), element("em", "where")],
        vec![element("span", "")],
    ];
    let signature = vec![vec![text("/ignored")]];
    let routes = get_uri_from_api_details(&vec![block(variants, signature, vec![])], &HttpVerb::GET);
    let templates: Vec<&str> = routes.iter().map(|r| r.template.as_str()).collect();
    assert_eq!(templates, vec!["/about/banned", "/r/{{subreddit}}/about/banned", "/about/{{where}}"]);
}

#[test]
fn only_the_first_detail_block_is_read() {
    let first = block(vec![], vec![vec![text("/first")]], vec![]);
    let second = block(vec![], vec![vec![text("/second")]], vec![]);
    let routes = get_uri_from_api_details(&vec![first, second], &HttpVerb::GET);
    assert_eq!(routes.len(), 1);
    assert_eq!(routes[0].template, "/first");
}

#[test]
fn later_parameter_row_overrides_earlier() {
    let rows = vec![
        ParameterRow { name: "sr".to_string(), description: None },
        ParameterRow { name: "api_type".to_string(), description: Some("the string json".to_string()) },
        ParameterRow { name: "sr".to_string(), description: Some("subreddit name".to_string()) },
    ];
    let fields = get_request_body_from_api_details(&block(vec![], vec![], rows));
    assert_eq!(fields.len(), 2);
    assert_eq!(fields.get("sr"), Some("subreddit name".to_string()));
    assert_eq!(fields.get("api_type"), Some("the string json".to_string()));
    assert!(fields.contains_key("sr"));
    assert!(!fields.contains_key("uh"));
}

#[test]
fn missing_description_is_empty() {
    let rows = vec![ParameterRow { name: "id".to_string(), description: None }];
    let fields = get_request_body_from_api_details(&block(vec![], vec![], rows));
    assert_eq!(fields.get("id"), Some(String::new()));
}

#[test]
fn escaping_marks_selector_characters() {
    assert_eq!(escape_special_characters("#GET_wiki_{page}"), "#GET_wiki_\\{page\\}");
    assert_eq!(escape_special_characters("#POST_api_a:b"), "#POST_api_a\\:b");
    assert_eq!(escape_special_characters("#GET_plain"), "#GET_plain");
    assert_eq!(escape_special_characters(""), "");
}

#[test]
fn escaped_identifier_selects_its_element() {
    let ids = ["GET_wiki_{page}", "POST_api_{a}:{b}", "GET_x:y"];
    for id in ids {
        let html = format!("<html><body><div id=\"other\"></div><div id=\"{}\">found</div></body></html>", id);
        let document = scraper::Html::parse_document(&html);
        let locator = escape_special_characters(&format!("#{}", id));
        let selector = scraper::Selector::parse(&locator).expect("escaped locator parses");
        let selected: Vec<_> = document.select(&selector).collect();
        assert_eq!(selected.len(), 1);
        assert_eq!(selected[0].value().attr("id"), Some(id));
    }
}

#[test]
fn word_before_underscore_takes_the_method() {
    assert_eq!(word_before_underscore("#GET_wiki_{page}"), "#GET");
    assert_eq!(word_before_underscore("POST"), "POST");
    assert_eq!(word_before_underscore("_x"), "");
}

#[test]
fn variant_marker_and_white_space_are_stripped() {
    assert_eq!(strip_variant_marker("→ /api/v1/me \n"), "/api/v1/me");
    assert_eq!(strip_variant_marker("→→/a"), "/a");
    assert_eq!(strip_variant_marker("  "), "");
    assert_eq!(strip_variant_marker(" → /a"), "→ /a");
}

#[test]
fn methods_parse_by_name() {
    assert_eq!(HttpVerb::parse("GET"), Some(HttpVerb::GET));
    assert_eq!(HttpVerb::parse("PATCH"), Some(HttpVerb::PATCH));
    assert_eq!(HttpVerb::parse("get"), None);
    assert_eq!(HttpVerb::from("POST"), HttpVerb::POST);
    assert_eq!(HttpVerb::from("DELETE").as_str(), "DELETE");
    assert_eq!(HttpVerb::PUT.lowercase_name(), "put");
    assert!(HttpVerb::POST.carries_body());
    assert!(HttpVerb::PUT.carries_body());
    assert!(HttpVerb::PATCH.carries_body());
    assert!(!HttpVerb::GET.carries_body());
    assert!(!HttpVerb::DELETE.carries_body());
}

#[test]
fn field_map_insert_replaces() {
    let mut map = FieldMap::new();
    assert!(map.is_empty());
    map.insert("a".to_string(), "1".to_string());
    map.insert("b".to_string(), "2".to_string());
    map.insert("a".to_string(), "3".to_string());
    assert_eq!(map.len(), 2);
    assert_eq!(map.entries(), pairs(&[("a", "3"), ("b", "2")]));
    assert_eq!(map.cloned().entries(), map.entries());
}

#[test]
fn section_titles_become_file_names() {
    assert_eq!(section_file_name("links & comments"), "links_and_comments");
    assert_eq!(section_file_name("account"), "account");
    assert_eq!(section_file_name(""), "");
}

#[test]
fn fragment_names_the_method() {
    assert_eq!(verb_of_fragment("#GET_wiki_{page}"), Some(HttpVerb::GET));
    assert_eq!(verb_of_fragment("#POST_api_submit"), Some(HttpVerb::POST));
    assert_eq!(verb_of_fragment("##PATCH"), Some(HttpVerb::PATCH));
    assert_eq!(verb_of_fragment("#section_x"), None);
}

#[test]
fn route_description_lists_parameters() {
    let routes = uri_prototype_into_concrete("/r/{{subreddit}}/{{where}}", FieldMap::new());
    assert_eq!(
        routes[0].to_display_string(),
        "/r/{{subreddit}}/{{where}}, {\"{{subreddit}}\": \"subreddit\", \"{{where}}\": \"where\"}"
    );
    let plain = uri_prototype_into_concrete("/api/v1/me", FieldMap::new());
    assert_eq!(plain[0].to_display_string(), "/api/v1/me, {}");
}

#[test]
fn placeholder_names_beyond_ascii() {
    let routes = uri_prototype_into_concrete("/r/{{ñame}}/{{x\u{2019}y}}", FieldMap::new());
    assert_eq!(sorted_parameters(&routes[0]), pairs(&[("{{ñame}}", "ñame")]));
}

#[test]
fn unicode_white_space_is_stripped() {
    assert_eq!(strip_variant_marker("\u{3000}/a\u{a0}\u{2029}"), "/a");
    assert_eq!(strip_variant_marker("\u{200b}/a"), "\u{200b}/a");
}
