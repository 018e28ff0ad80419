use vstd::prelude::*;
use crate::http_verb::{verb_lowercase_name, HttpVerb};
use crate::field_map::{entries_map, FieldMap};
use crate::template_uri::TemplateUri;
use crate::text::{same_text, trim_char_bounds, trim_end_char, trim_start_char};

verus! {

/// The class-case form of an identifier (inflector's `to_class_case`).
pub uninterp spec fn class_case_of(s: Seq<char>) -> Seq<char>;

/// Relies on inflector's `to_class_case`, whose result depends on its argument
/// alone.
#[verifier::external_body]
fn to_class_case(s: &str) -> (r: String)
    ensures
        r@ == class_case_of(s@),
{
    inflector::cases::classcase::to_class_case(s)
}

/// What one character of a route path becomes in an identifier: braces are
/// dropped and slashes become underscores.
pub open spec fn name_char(c: char) -> Seq<char> {
    if c == '{' || c == '}' {
        Seq::empty()
    } else if c == '/' {
        seq!['_']
    } else {
        seq![c]
    }
}

/// Each character of `s` as it stands in an identifier.
pub open spec fn name_chars(s: Seq<char>) -> Seq<char>
    decreases s.len(),
{
    if s.len() == 0 {
        Seq::empty()
    } else {
        name_chars(s.drop_last()) + name_char(s.last())
    }
}

/// The identifier of a route: its template without the slashes at either
/// end, without braces, and with underscores for the inner slashes.
pub open spec fn method_name(t: Seq<char>) -> Seq<char> {
    name_chars(trim_end_char(trim_start_char(t, '/'), '/'))
}

/// The name of the structure that holds a route's request fields.
pub open spec fn structure_name(t: Seq<char>) -> Seq<char> {
    class_case_of(method_name(t))
}

/// The identifier of a route, as used in the names of generated functions.
pub fn api_method_name(template: &str) -> (r: String)
    ensures
        r@ == method_name(template@),
{
    let (start, end) = trim_char_bounds(template, '/');
    let ghost trimmed = template@.subrange(start as int, end as int);
    let mut r = String::new();
    let mut i: usize = start;
    assert(trimmed.subrange(0, 0) =~= Seq::<char>::empty());
    while i < end
        invariant
            start <= i <= end <= template@.len(),
            trimmed == template@.subrange(start as int, end as int),
            r@ == name_chars(trimmed.subrange(0, i - start)),
        decreases end - i,
    {
        let ghost before = r@;
        let c = template.get_char(i);
        if c == '/' {
            proof {
                reveal_strlit("_");
                assert("_"@ =~= seq!['_']);
            }
            r.append("_");
        } else if c != '{' && c != '}' {
            let one = template.substring_char(i, i + 1);
            assert(one@ =~= seq![c]);
            r.append(one);
        }
        proof {
            let p = trimmed.subrange(0, i + 1 - start);
            assert(p.drop_last() =~= trimmed.subrange(0, i - start));
            assert(p.last() == c);
            assert(r@ =~= before + name_char(c));
        }
        i = i + 1;
    }
    assert(trimmed.subrange(0, end - start) =~= trimmed);
    r
}

/// The name of the structure that holds a route's request fields.
pub fn api_structure_name(template: &str) -> (r: String)
    ensures
        r@ == structure_name(template@),
{
    let name = api_method_name(template);
    to_class_case(name.as_str())
}

/// `s` where `b` holds, else nothing.
pub open spec fn when(b: bool, s: Seq<char>) -> Seq<char> {
    if b {
        s
    } else {
        Seq::empty()
    }
}

/// The source of the function that sends a request for a route.
pub open spec fn post_api_text(verb: HttpVerb, t: Seq<char>, has_params: bool, has_fields: bool) -> Seq<char> {
    let lower = verb_lowercase_name(verb);
    "// API is: '"@ + t + "'\n"@ + "pub async fn "@ + "execute_"@ + lower + "_"@ + method_name(t)
        + "(\n"@ + "  client: &reqwest::Client,\n"@ + "  access_token: String,\n"@ + (if has_params {
        "  parameters: &HashMap<String, String>,\n"@
    } else {
        "  _parameters: &HashMap<String, String>,\n"@
    }) + (if has_fields {
        "  request_fields: &serde_json::Value,\n"@
    } else {
        "  _request_fields: &serde_json::Value,\n"@
    }) + ") -> std::result::Result<reqwest::Response, reqwest::Error> {\n"@ + when(
        has_params,
        "  let mut handlebars = Handlebars::new();\n"@ + "  handlebars.set_strict_mode(true);\n"@,
    ) + "  client\n"@ + (if has_params {
        "    ."@ + lower
            + "(&(\"https://oauth.reddit.com\".to_string() + &handlebars.render_template(\""@ + t
            + "\", &parameters).unwrap()))\n"@
    } else {
        "    ."@ + lower + "(\"https://oauth.reddit.com"@ + t + "\")\n"@
    }) + when(verb == HttpVerb::POST && has_fields, "    .json(&request_fields)\n"@)
        + "    .bearer_auth(&access_token)\n"@ + "    .send()\n"@ + "    .await\n"@ + "}\n"@ + "\n"@
}

/// The source of the function that sends a request for a route with the
/// given method.
pub fn post_api_source(http_verb: &HttpVerb, api: &TemplateUri) -> (r: String)
    ensures
        r@ == post_api_text(
            *http_verb,
            api.template@,
            api.parameters@ != Map::<Seq<char>, Seq<char>>::empty(),
            api.request_fields@ != Map::<Seq<char>, Seq<char>>::empty(),
        ),
{
    let t = api.template.as_str();
    let lower = http_verb.lowercase_name();
    let has_params = !api.parameters.is_empty();
    let has_fields = !api.request_fields.is_empty();
    let name = api_method_name(t);
    let mut r = String::new();
    r.append("// API is: '");
    r.append(t);
    r.append("'\n");
    r.append("pub async fn ");
    r.append("execute_");
    r.append(lower);
    r.append("_");
    r.append(name.as_str());
    r.append("(\n");
    r.append("  client: &reqwest::Client,\n");
    r.append("  access_token: String,\n");
    if has_params {
        r.append("  parameters: &HashMap<String, String>,\n");
    } else {
        r.append("  _parameters: &HashMap<String, String>,\n");
    }
    if has_fields {
        r.append("  request_fields: &serde_json::Value,\n");
    } else {
        r.append("  _request_fields: &serde_json::Value,\n");
    }
    r.append(") -> std::result::Result<reqwest::Response, reqwest::Error> {\n");
    let ghost before = r@;
    if has_params {
        r.append("  let mut handlebars = Handlebars::new();\n");
        r.append("  handlebars.set_strict_mode(true);\n");
    }
    assert(r@ =~= before + when(
        has_params,
        "  let mut handlebars = Handlebars::new();\n"@ + "  handlebars.set_strict_mode(true);\n"@,
    ));
    r.append("  client\n");
    let ghost before = r@;
    if has_params {
        r.append("    .");
        r.append(lower);
        r.append("(&(\"https://oauth.reddit.com\".to_string() + &handlebars.render_template(\"");
        r.append(t);
        r.append("\", &parameters).unwrap()))\n");
        assert(r@ =~= before + ("    ."@ + lower@
            + "(&(\"https://oauth.reddit.com\".to_string() + &handlebars.render_template(\""@ + t@
            + "\", &parameters).unwrap()))\n"@));
    } else {
        r.append("    .");
        r.append(lower);
        r.append("(\"https://oauth.reddit.com");
        r.append(t);
        r.append("\")\n");
        assert(r@ =~= before + ("    ."@ + lower@ + "(\"https://oauth.reddit.com"@ + t@ + "\")\n"@));
    }
    let ghost before = r@;
    let is_post = match http_verb {
        HttpVerb::POST => true,
        _ => false,
    };
    if is_post && has_fields {
        r.append("    .json(&request_fields)\n");
    }
    assert(r@ =~= before + when(*http_verb == HttpVerb::POST && has_fields, "    .json(&request_fields)\n"@));
    r.append("    .bearer_auth(&access_token)\n");
    r.append("    .send()\n");
    r.append("    .await\n");
    r.append("}\n");
    r.append("\n");
    r
}

/// The argument that hands a request's body to the executing function.
pub open spec fn body_argument(verb: HttpVerb) -> Seq<char> {
    match verb {
        HttpVerb::POST => "    &serde_json::to_value(request_fields).unwrap(),\n"@,
        HttpVerb::GET => "    &serde_json::from_str(\"{}\").unwrap(),\n"@,
        _ => Seq::empty(),
    }
}

/// The source of the function that calls a route's executing function,
/// refreshing the access token where needed.
pub open spec fn wrapper_text(
    verb: HttpVerb,
    t: Seq<char>,
    section: Seq<char>,
    has_params: bool,
    has_fields: bool,
) -> Seq<char> {
    let lower = verb_lowercase_name(verb);
    "// API is: '"@ + t + "'\n"@ + "pub async fn "@ + "wrapper_"@ + lower + "_"@ + method_name(t)
        + "(\n"@ + "  client: &reqwest::Client,\n"@
        + "  client_configuration: &client::ClientConfiguration,\n"@
        + "  access_token: &mut String,\n"@ + when(has_params, "  parameters: &HashMap<String, String>,\n"@)
        + when(has_fields, "  request_fields: "@ + structure_name(t) + ",\n"@)
        + ") -> Result<serde_json::Value, reqwest::Error> {\n"@ + "  utils::execute_with_refresh(\n"@
        + "    &client,\n"@ + "    client_configuration,\n"@ + "    access_token,\n"@ + (if has_params {
        "    parameters,\n"@
    } else {
        "    &HashMap::new(),\n"@
    }) + body_argument(verb) + "    "@ + section + "_execution::"@ + "execute_"@ + lower + "_"@
        + method_name(t) + ",\n"@ + "  )\n"@ + "  .await\n"@ + "}\n"@ + "\n"@
}

/// The source of the wrapper function of a route, whose executing function
/// stands in the module of `api_section`.
pub fn wrapper_source(http_verb: &HttpVerb, api: &TemplateUri, api_section: &str) -> (r: String)
    ensures
        r@ == wrapper_text(
            *http_verb,
            api.template@,
            api_section@,
            api.parameters@ != Map::<Seq<char>, Seq<char>>::empty(),
            api.request_fields@ != Map::<Seq<char>, Seq<char>>::empty(),
        ),
{
    let t = api.template.as_str();
    let lower = http_verb.lowercase_name();
    let has_params = !api.parameters.is_empty();
    let has_fields = !api.request_fields.is_empty();
    let name = api_method_name(t);
    let mut r = String::new();
    r.append("// API is: '");
    r.append(t);
    r.append("'\n");
    r.append("pub async fn ");
    r.append("wrapper_");
    r.append(lower);
    r.append("_");
    r.append(name.as_str());
    r.append("(\n");
    r.append("  client: &reqwest::Client,\n");
    r.append("  client_configuration: &client::ClientConfiguration,\n");
    r.append("  access_token: &mut String,\n");
    let ghost before = r@;
    if has_params {
        r.append("  parameters: &HashMap<String, String>,\n");
    }
    assert(r@ =~= before + when(has_params, "  parameters: &HashMap<String, String>,\n"@));
    let ghost before = r@;
    if has_fields {
        let structure = api_structure_name(t);
        r.append("  request_fields: ");
        r.append(structure.as_str());
        r.append(",\n");
        assert(r@ =~= before + ("  request_fields: "@ + structure_name(t@) + ",\n"@));
    }
    assert(r@ =~= before + when(has_fields, "  request_fields: "@ + structure_name(t@) + ",\n"@));
    r.append(") -> Result<serde_json::Value, reqwest::Error> {\n");
    r.append("  utils::execute_with_refresh(\n");
    r.append("    &client,\n");
    r.append("    client_configuration,\n");
    r.append("    access_token,\n");
    if has_params {
        r.append("    parameters,\n");
    } else {
        r.append("    &HashMap::new(),\n");
    }
    let ghost before = r@;
    match http_verb {
        HttpVerb::POST => {
            r.append("    &serde_json::to_value(request_fields).unwrap(),\n");
        },
        HttpVerb::GET => {
            r.append("    &serde_json::from_str(\"{}\").unwrap(),\n");
        },
        _ => {},
    }
    assert(r@ =~= before + body_argument(*http_verb));
    r.append("    ");
    r.append(api_section);
    r.append("_execution::");
    r.append("execute_");
    r.append(lower);
    r.append("_");
    r.append(name.as_str());
    r.append(",\n");
    r.append("  )\n");
    r.append("  .await\n");
    r.append("}\n");
    r.append("\n");
    r
}

/// The comment line that carries a field's description, if it has one.
pub open spec fn comment_text(v: Seq<char>) -> Seq<char> {
    when(v.len() > 0, "  // "@ + v + "\n"@)
}

/// The declaration of one request field in the structure of a request body.
/// The anti-forgery header field is left out, and fields whose names are not
/// identifiers are renamed.
pub open spec fn field_text(k: Seq<char>, v: Seq<char>) -> Seq<char> {
    if k == "uh / X-Modhash header"@ {
        Seq::empty()
    } else if k == "g-recaptcha-response"@ {
        comment_text(v) + "  #[serde(rename = \"g-recaptcha-response\")]\n\n"@
            + "  pub g_recaptcha_response: String,\n\n"@
    } else if k == "type"@ {
        comment_text(v) + "  #[serde(rename = \"type\")]\n"@ + "  pub r#type: String,\n\n"@
    } else if k == "mod"@ {
        comment_text(v) + "  #[serde(rename = \"mod\")]\n"@ + "  pub r#mod: String,\n\n"@
    } else if k == "('user',)"@ {
        comment_text(v) + "  // This isn't right, it's supposed to be a username as the JSON property\n"@
            + "  pub user: String,\n\n"@
    } else {
        comment_text(v) + "  pub "@ + k + ": String,\n\n"@
    }
}

/// The declarations of the fields, in order.
pub open spec fn fields_text(es: Seq<(String, String)>) -> Seq<char>
    decreases es.len(),
{
    if es.len() == 0 {
        Seq::empty()
    } else {
        fields_text(es.drop_last()) + field_text(es.last().0@, es.last().1@)
    }
}

/// The structure of a route's request body; nothing where the route has no
/// request fields.
pub open spec fn request_model_text(t: Seq<char>, es: Seq<(String, String)>) -> Seq<char> {
    if es.len() == 0 {
        Seq::empty()
    } else {
        "// API is: '"@ + t + "'\n"@
            + "#[derive(Default, Debug, Clone, PartialEq, serde::Serialize, serde::Deserialize)]\n"@
            + "pub struct "@ + structure_name(t) + " {\n"@ + fields_text(es) + "}\n\n"@
    }
}

/// Appends the comment line of a field's description, if it has one.
fn append_comment(r: &mut String, v: &str)
    ensures
        final(r)@ == old(r)@ + comment_text(v@),
{
    if v.unicode_len() > 0 {
        r.append("  // ");
        r.append(v);
        r.append("\n");
    }
}

/// The declaration of one request field.
pub fn field_source(k: &str, v: &str) -> (r: String)
    ensures
        r@ == field_text(k@, v@),
{
    let mut r = String::new();
    if same_text(k, "uh / X-Modhash header") {
        // requests authenticate by OAuth, which needs no modhash
    } else if same_text(k, "g-recaptcha-response") {
        append_comment(&mut r, v);
        r.append("  #[serde(rename = \"g-recaptcha-response\")]\n\n");
        r.append("  pub g_recaptcha_response: String,\n\n");
    } else if same_text(k, "type") {
        append_comment(&mut r, v);
        r.append("  #[serde(rename = \"type\")]\n");
        r.append("  pub r#type: String,\n\n");
    } else if same_text(k, "mod") {
        append_comment(&mut r, v);
        r.append("  #[serde(rename = \"mod\")]\n");
        r.append("  pub r#mod: String,\n\n");
    } else if same_text(k, "('user',)") {
        append_comment(&mut r, v);
        r.append("  // This isn't right, it's supposed to be a username as the JSON property\n");
        r.append("  pub user: String,\n\n");
    } else {
        append_comment(&mut r, v);
        r.append("  pub ");
        r.append(k);
        r.append(": String,\n\n");
    }
    r
}

/// The source of the structure that holds a route's request fields, in the
/// order of the fields; empty where the route has none.
pub fn request_model_source(api: &TemplateUri) -> (r: String)
    ensures
        r@ == request_model_text(api.template@, api.request_fields.entry_seq()),
{
    let es = api.request_fields.entries();
    if es.len() == 0 {
        return String::new();
    }
    let t = api.template.as_str();
    let structure = api_structure_name(t);
    let mut r = String::new();
    r.append("// API is: '");
    r.append(t);
    r.append("'\n");
    r.append("#[derive(Default, Debug, Clone, PartialEq, serde::Serialize, serde::Deserialize)]\n");
    r.append("pub struct ");
    r.append(structure.as_str());
    r.append(" {\n");
    let ghost head = r@;
    let mut i: usize = 0;
    assert(es@.subrange(0, 0) =~= Seq::<(String, String)>::empty());
    assert(r@ =~= head + fields_text(es@.subrange(0, 0)));
    while i < es.len()
        invariant
            0 <= i <= es@.len(),
            r@ == head + fields_text(es@.subrange(0, i as int)),
        decreases es@.len() - i,
    {
        let field = field_source(es[i].0.as_str(), es[i].1.as_str());
        r.append(field.as_str());
        proof {
            let p = es@.subrange(0, i + 1);
            assert(p.drop_last() =~= es@.subrange(0, i as int));
            assert(r@ =~= head + fields_text(p));
        }
        i = i + 1;
    }
    assert(es@.subrange(0, es@.len() as int) =~= es@);
    r.append("}\n\n");
    r
}

/// A character that may stand between the opening braces of a tag and the
/// `>` of a partial call: white space, the white space omitter `~`, or the `#`
/// of a partial block.
pub open spec fn partial_opener_char(c: char) -> bool {
    c == ' ' || c == '\t' || c == '\n' || c == '\r' || c == '~' || c == '#'
}

/// A tag that calls a partial (`{{> name}}`, `{{~> name}}`, `{{#> name}}`,
/// white space allowed) opens at index `i` of `t`.
pub open spec fn partial_call_at(t: Seq<char>, i: int) -> bool {
    &&& 0 <= i
    &&& i + 1 < t.len()
    &&& t[i] == '{'
    &&& t[i + 1] == '{'
    &&& exists|j: int|
        i + 2 <= j < t.len() && #[trigger] t[j] == '>' && forall|m: int|
            i + 2 <= m < j ==> partial_opener_char(#[trigger] t[m])
}

/// The template calls no partial, so that rendering it cannot recurse.
pub open spec fn calls_no_partial(t: Seq<char>) -> bool {
    forall|i: int| !partial_call_at(t, i)
}

/// Whether a template calls no partial.
pub fn template_calls_no_partial(template: &str) -> (r: bool)
    ensures
        r == calls_no_partial(template@),
{
    let cs = crate::text::chars_of(template);
    let n = cs.len();
    let mut i: usize = 0;
    while i < n
        invariant
            cs@ == template@,
            n == template@.len(),
            0 <= i <= n,
            forall|m: int| 0 <= m < i ==> !partial_call_at(template@, m),
        decreases n - i,
    {
        if i + 1 < n && cs[i] == '{' && cs[i + 1] == '{' {
            let mut j: usize = i + 2;
            while j < n && (cs[j] == ' ' || cs[j] == '\t' || cs[j] == '\n' || cs[j] == '\r' || cs[j] == '~'
                || cs[j] == '#')
                invariant
                    cs@ == template@,
                    n == template@.len(),
                    i + 2 <= j <= n,
                    forall|m: int| i + 2 <= m < j ==> partial_opener_char(#[trigger] template@[m]),
                decreases n - j,
            {
                j = j + 1;
            }
            if j < n && cs[j] == '>' {
                assert(partial_call_at(template@, i as int));
                return false;
            }
            assert(!partial_call_at(template@, i as int)) by {
                if partial_call_at(template@, i as int) {
                    let k = choose|k: int|
                        i + 2 <= k < template@.len() && #[trigger] template@[k] == '>' && forall|m: int|
                            i + 2 <= m < k ==> partial_opener_char(#[trigger] template@[m]);
                    if k > j {
                        assert(partial_opener_char(template@[j as int]));
                    }
                }
            }
        }
        i = i + 1;
    }
    true
}

/// The text that handlebars renders from a template and its data in strict
/// mode, or `None` where rendering fails.
pub uninterp spec fn strict_rendering(template: Seq<char>, data: Map<Seq<char>, Seq<char>>) -> Option<Seq<char>>;

/// Relies on handlebars' `Registry::render_template` with strict mode set: it
/// renders the template against the data or fails, and its result depends on
/// the template and the data alone. A partial that includes itself would make
/// it recurse without bound, so templates that call partials are left out.
#[verifier::external_body]
fn render_strict(template: &str, data: &Vec<(String, String)>) -> (r: Option<String>)
    requires
        calls_no_partial(template@),
    ensures
        match r {
            Some(s) => strict_rendering(template@, entries_map(data@)) == Some(s@),
            None => strict_rendering(template@, entries_map(data@)) is None,
        },
{
    let mut registry = handlebars::Handlebars::new();
    registry.set_strict_mode(true);
    let values: std::collections::BTreeMap<String, String> = data.iter().cloned().collect();
    registry.render_template(template, &values).ok()
}

/// The data of the template for a route's executing function.
pub open spec fn get_api_data_map(t: Seq<char>, has_params: bool, has_fields: bool) -> Map<Seq<char>, Seq<char>> {
    let m = Map::empty().insert("api_path"@, t).insert("api_name"@, method_name(t));
    let m = if has_params { m.insert("parameters"@, "true"@) } else { m };
    if has_fields { m.insert("request_fields"@, "true"@) } else { m }
}

/// The data of the template for a route's wrapper function.
pub open spec fn get_wrapper_data_map(t: Seq<char>, section: Seq<char>, has_params: bool, has_fields: bool) -> Map<Seq<char>, Seq<char>> {
    let m = Map::empty().insert("api_path"@, t).insert("api_name"@, method_name(t)).insert("api_section"@, section);
    let m = if has_params { m.insert("uri_parameters"@, "true"@) } else { m };
    if has_fields { m.insert("query_parameters"@, "true"@) } else { m }
}

/// The data with which the template for a route's executing function is
/// rendered.
pub fn get_api_data(api: &TemplateUri) -> (r: FieldMap)
    ensures
        r.wf(),
        r@ == get_api_data_map(
            api.template@,
            api.parameters@ != Map::<Seq<char>, Seq<char>>::empty(),
            api.request_fields@ != Map::<Seq<char>, Seq<char>>::empty(),
        ),
{
    let mut r = FieldMap::new();
    r.insert(String::from_str("api_path"), api.template.clone());
    r.insert(String::from_str("api_name"), api_method_name(api.template.as_str()));
    if !api.parameters.is_empty() {
        r.insert(String::from_str("parameters"), String::from_str("true"));
    }
    if !api.request_fields.is_empty() {
        r.insert(String::from_str("request_fields"), String::from_str("true"));
    }
    r
}

/// The data with which the template for a route's wrapper function is
/// rendered.
pub fn get_wrapper_data(api: &TemplateUri, api_section: &str) -> (r: FieldMap)
    ensures
        r.wf(),
        r@ == get_wrapper_data_map(
            api.template@,
            api_section@,
            api.parameters@ != Map::<Seq<char>, Seq<char>>::empty(),
            api.request_fields@ != Map::<Seq<char>, Seq<char>>::empty(),
        ),
{
    let mut r = FieldMap::new();
    r.insert(String::from_str("api_path"), api.template.clone());
    r.insert(String::from_str("api_name"), api_method_name(api.template.as_str()));
    r.insert(String::from_str("api_section"), String::from_str(api_section));
    if !api.parameters.is_empty() {
        r.insert(String::from_str("uri_parameters"), String::from_str("true"));
    }
    if !api.request_fields.is_empty() {
        r.insert(String::from_str("query_parameters"), String::from_str("true"));
    }
    r
}

/// Renders the template for a route's executing function; `None` where the
/// template asks for data the route does not give. The template may call no
/// partial.
pub fn render_get_api(template_text: &str, api: &TemplateUri) -> (r: Option<String>)
    requires
        calls_no_partial(template_text@),
    ensures
        match r {
            Some(s) => strict_rendering(
                template_text@,
                get_api_data_map(
                    api.template@,
                    api.parameters@ != Map::<Seq<char>, Seq<char>>::empty(),
                    api.request_fields@ != Map::<Seq<char>, Seq<char>>::empty(),
                ),
            ) == Some(s@),
            None => strict_rendering(
                template_text@,
                get_api_data_map(
                    api.template@,
                    api.parameters@ != Map::<Seq<char>, Seq<char>>::empty(),
                    api.request_fields@ != Map::<Seq<char>, Seq<char>>::empty(),
                ),
            ) is None,
        },
{
    let data = get_api_data(api);
    render_strict(template_text, &data.entries())
}

/// Renders the template for a route's wrapper function; `None` where the
/// template asks for data the route does not give. The template may call no
/// partial.
pub fn render_get_wrapper(template_text: &str, api: &TemplateUri, api_section: &str) -> (r: Option<String>)
    requires
        calls_no_partial(template_text@),
    ensures
        match r {
            Some(s) => strict_rendering(
                template_text@,
                get_wrapper_data_map(
                    api.template@,
                    api_section@,
                    api.parameters@ != Map::<Seq<char>, Seq<char>>::empty(),
                    api.request_fields@ != Map::<Seq<char>, Seq<char>>::empty(),
                ),
            ) == Some(s@),
            None => strict_rendering(
                template_text@,
                get_wrapper_data_map(
                    api.template@,
                    api_section@,
                    api.parameters@ != Map::<Seq<char>, Seq<char>>::empty(),
                    api.request_fields@ != Map::<Seq<char>, Seq<char>>::empty(),
                ),
            ) is None,
        },
{
    let data = get_wrapper_data(api, api_section);
    render_strict(template_text, &data.entries())
}

/// The source texts generated for one route.
pub struct RouteSources {
    /// The function that sends the request.
    pub execution: String,
    /// The function that calls it, refreshing the access token where needed.
    pub wrapper: String,
    /// The structure of the request body, for a method that has one.
    pub request_model: Option<String>,
}

/// Whether source is generated for routes with this method.
pub open spec fn generated_for(verb: HttpVerb) -> bool {
    verb == HttpVerb::GET || verb == HttpVerb::POST
}

/// The source texts of a route in a section; `None` for a method whose
/// routes are not generated yet.
///
/// The wrapper of a GET route names the section by its title, that of a POST
/// route by its file name; only a POST route gets a request structure.
pub fn route_sources(http_verb: &HttpVerb, api: &TemplateUri, section_title: &str, file_name: &str) -> (r: Option<RouteSources>)
    ensures
        r is Some <==> generated_for(*http_verb),
        match r {
            Some(sources) => {
                let has_params = api.parameters@ != Map::<Seq<char>, Seq<char>>::empty();
                let has_fields = api.request_fields@ != Map::<Seq<char>, Seq<char>>::empty();
                let section = if *http_verb == HttpVerb::GET { section_title@ } else { file_name@ };
                &&& sources.execution@ == post_api_text(*http_verb, api.template@, has_params, has_fields)
                &&& sources.wrapper@ == wrapper_text(*http_verb, api.template@, section, has_params, has_fields)
                &&& (sources.request_model is Some <==> *http_verb == HttpVerb::POST)
                &&& (sources.request_model matches Some(m) ==> m@ == request_model_text(
                    api.template@,
                    api.request_fields.entry_seq(),
                ))
            },
            None => true,
        },
{
    match http_verb {
        HttpVerb::GET => Some(
            RouteSources {
                execution: post_api_source(http_verb, api),
                wrapper: wrapper_source(http_verb, api, section_title),
                request_model: None,
            },
        ),
        HttpVerb::POST => Some(
            RouteSources {
                execution: post_api_source(http_verb, api),
                wrapper: wrapper_source(http_verb, api, file_name),
                request_model: Some(request_model_source(api)),
            },
        ),
        _ => None,
    }
}

} // verus!
