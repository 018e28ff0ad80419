use reddit_api_scraper::api_scraper::uri_prototype_into_concrete;
use reddit_api_scraper::field_map::FieldMap;
use reddit_api_scraper::generator::{
    api_method_name, api_structure_name, field_source, get_api_data, get_wrapper_data, post_api_source,
    render_get_api, render_get_wrapper, request_model_source, template_calls_no_partial, wrapper_source,
};
use reddit_api_scraper::http_verb::HttpVerb;
use reddit_api_scraper::template_uri::TemplateUri;

fn route(prototype: &str, fields: &[(&str, &str)]) -> TemplateUri {
    let mut map = FieldMap::new();
    for (k, v) in fields {
        map.insert(k.to_string(), v.to_string());
    }
    uri_prototype_into_concrete(prototype, map).remove(0)
}

#[test]
fn method_name_drops_braces_and_outer_slashes() {
    assert_eq!(api_method_name("/api/{{action}}/{{id}}/"), "api_action_id");
    assert_eq!(api_method_name("//about/banned"), "about_banned");
    assert_eq!(api_method_name("/"), "");
}

#[test]
fn structure_name_is_class_case() {
    assert_eq!(api_structure_name("/api/wiki/edit"), "ApiWikiEdit");
    assert_eq!(api_structure_name("/api/v1/me"), "ApiV1Me");
}

#[test]
fn post_source_without_parameters() {
    let api = route("/api/v1/me", &[]);
    let expected = "// API is: '/api/v1/me'\n\
pub async fn execute_get_api_v1_me(\n\
\x20 client: &reqwest::Client,\n\
\x20 access_token: String,\n\
\x20 _parameters: &HashMap<String, String>,\n\
\x20 _request_fields: &serde_json::Value,\n\
) -> std::result::Result<reqwest::Response, reqwest::Error> {\n\
\x20 client\n\
\x20   .get(\"https://oauth.reddit.com/api/v1/me\")\n\
\x20   .bearer_auth(&access_token)\n\
\x20   .send()\n\
\x20   .await\n\
}\n\n";
    assert_eq!(post_api_source(&HttpVerb::GET, &api), expected);
}

#[test]
fn post_source_with_parameters_and_body() {
    let api = route("/r/{{subreddit}}/api/wiki/edit", &[("page", "the wiki page name")]);
    let expected = "// API is: '/r/{{subreddit}}/api/wiki/edit'\n\
pub async fn execute_post_r_subreddit_api_wiki_edit(\n\
\x20 client: &reqwest::Client,\n\
\x20 access_token: String,\n\
\x20 parameters: &HashMap<String, String>,\n\
\x20 request_fields: &serde_json::Value,\n\
) -> std::result::Result<reqwest::Response, reqwest::Error> {\n\
\x20 let mut handlebars = Handlebars::new();\n\
\x20 handlebars.set_strict_mode(true);\n\
\x20 client\n\
\x20   .post(&(\"https://oauth.reddit.com\".to_string() + &handlebars.render_template(\"/r/{{subreddit}}/api/wiki/edit\", &parameters).unwrap()))\n\
\x20   .json(&request_fields)\n\
\x20   .bearer_auth(&access_token)\n\
\x20   .send()\n\
\x20   .await\n\
}\n\n";
    assert_eq!(post_api_source(&HttpVerb::POST, &api), expected);
}

#[test]
fn wrapper_source_for_post_route() {
    let api = route("/api/wiki/edit", &[("page", "the wiki page name")]);
    let expected = "// API is: '/api/wiki/edit'\n\
pub async fn wrapper_post_api_wiki_edit(\n\
\x20 client: &reqwest::Client,\n\
\x20 client_configuration: &client::ClientConfiguration,\n\
\x20 access_token: &mut String,\n\
\x20 request_fields: ApiWikiEdit,\n\
) -> Result<serde_json::Value, reqwest::Error> {\n\
\x20 utils::execute_with_refresh(\n\
\x20   &client,\n\
\x20   client_configuration,\n\
\x20   access_token,\n\
\x20   &HashMap::new(),\n\
\x20   &serde_json::to_value(request_fields).unwrap(),\n\
\x20   wiki_execution::execute_post_api_wiki_edit,\n\
\x20 )\n\
\x20 .await\n\
}\n\n";
    assert_eq!(wrapper_source(&HttpVerb::POST, &api, "wiki"), expected);
}

#[test]
fn wrapper_source_for_get_route_with_parameters() {
    let api = route("/r/{{subreddit}}/about", &[]);
    let source = wrapper_source(&HttpVerb::GET, &api, "subreddits");
    assert!(source.contains("  parameters: &HashMap<String, String>,\n"));
    assert!(source.contains("    parameters,\n"));
    assert!(source.contains("    &serde_json::from_str(\"{}\").unwrap(),\n"));
    assert!(source.contains("    subreddits_execution::execute_get_r_subreddit_about,\n"));
    assert!(!source.contains("request_fields"));
}

#[test]
fn request_model_lists_fields() {
    let api = route(
        "/api/submit",
        &[("uh / X-Modhash header", "a modhash"), ("type", ""), ("title", "title of the submission")],
    );
    let expected = "// API is: '/api/submit'\n\
#[derive(Default, Debug, Clone, PartialEq, serde::Serialize, serde::Deserialize)]\n\
pub struct ApiSubmit {\n\
\x20 #[serde(rename = \"type\")]\n\
\x20 pub r#type: String,\n\n\
\x20 // title of the submission\n\
\x20 pub title: String,\n\n\
}\n\n";
    assert_eq!(request_model_source(&api), expected);
    assert_eq!(request_model_source(&route("/api/v1/me", &[])), "");
}

#[test]
fn renamed_fields() {
    assert_eq!(
        field_source("g-recaptcha-response", "captcha"),
        "  // captcha\n  #[serde(rename = \"g-recaptcha-response\")]\n\n  pub g_recaptcha_response: String,\n\n"
    );
    assert_eq!(field_source("mod", ""), "  #[serde(rename = \"mod\")]\n  pub r#mod: String,\n\n");
    assert_eq!(
        field_source("('user',)", ""),
        "  // This isn't right, it's supposed to be a username as the JSON property\n  pub user: String,\n\n"
    );
}

#[test]
fn template_data_for_routes() {
    let api = route("/r/{{subreddit}}/about", &[]);
    let data = get_api_data(&api);
    assert_eq!(data.get("api_path"), Some("/r/{{subreddit}}/about".to_string()));
    assert_eq!(data.get("api_name"), Some("r_subreddit_about".to_string()));
    assert_eq!(data.get("parameters"), Some("true".to_string()));
    assert_eq!(data.get("request_fields"), None);
    let data = get_wrapper_data(&api, "subreddits");
    assert_eq!(data.get("api_section"), Some("subreddits".to_string()));
    assert_eq!(data.get("uri_parameters"), Some("true".to_string()));
    assert_eq!(data.get("query_parameters"), None);
}

#[test]
fn rendering_uses_route_data() {
    let api = route("/api/v1/me", &[]);
    assert_eq!(
        render_get_api("fn {{api_name}}() // {{api_path}}", &api),
        Some("fn api_v1_me() // /api/v1/me".to_string())
    );
    assert_eq!(render_get_api("{{parameters}}", &api), None);
    assert_eq!(
        render_get_wrapper("{{api_section}}::{{api_name}}", &api, "account"),
        Some("account::api_v1_me".to_string())
    );
}

#[test]
fn sources_follow_the_method() {
    let api = route("/api/wiki/edit", &[("page", "the wiki page name")]);
    let get = reddit_api_scraper::generator::route_sources(&HttpVerb::GET, &api, "Wiki Pages", "Wiki_Pages").unwrap();
    assert!(get.wrapper.contains("    Wiki Pages_execution::execute_get_api_wiki_edit,\n"));
    assert!(get.request_model.is_none());
    assert_eq!(get.execution, post_api_source(&HttpVerb::GET, &api));
    let post = reddit_api_scraper::generator::route_sources(&HttpVerb::POST, &api, "Wiki Pages", "Wiki_Pages").unwrap();
    assert!(post.wrapper.contains("    Wiki_Pages_execution::execute_post_api_wiki_edit,\n"));
    assert_eq!(post.request_model, Some(request_model_source(&api)));
    assert!(reddit_api_scraper::generator::route_sources(&HttpVerb::PUT, &api, "Wiki Pages", "Wiki_Pages").is_none());
}

#[test]
fn partial_calls_are_detected() {
    assert!(!template_calls_no_partial("{{> a}}"));
    assert!(!template_calls_no_partial("x {{~ #> layout}}{{/layout}}"));
    assert!(!template_calls_no_partial("{{#*inline \"a\"}}{{> a}}{{/inline}}{{> a}}"));
    assert!(template_calls_no_partial("fn {{api_name}}() -> Result<(), E> {}"));
    assert!(template_calls_no_partial("{{#if parameters}}a > b{{/if}}"));
    assert!(template_calls_no_partial(""));
}
