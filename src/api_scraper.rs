use vstd::prelude::*;
use crate::field_map::FieldMap;
use crate::http_verb::{carries_body, verb_named, HttpVerb};
use crate::text::{same_text, strip_arrows, strip_variant_marker, trim, trim_start_char};
use crate::template_uri::{extract_parameters, placeholder_at, placeholder_name, placeholder_text_at, TemplateUri};

verus! {

/// The index of the first `c` in `s` at or after index `i`, or the length of
/// `s` where there is none.
pub open spec fn index_from(s: Seq<char>, c: char, i: int) -> int
    decreases s.len() - i,
{
    if 0 <= i < s.len() {
        if s[i] == c {
            i
        } else {
            index_from(s, c, i + 1)
        }
    } else {
        s.len() as int
    }
}

/// The index of the last `c` in `s` below index `n`, or -1 where there is none.
pub open spec fn last_index_before(s: Seq<char>, c: char, n: int) -> int
    decreases n,
{
    if 0 < n <= s.len() {
        if s[n - 1] == c {
            n - 1
        } else {
            last_index_before(s, c, n - 1)
        }
    } else {
        -1
    }
}

/// Where the optional section of a prototype opens: its first `[`.
pub open spec fn section_open(s: Seq<char>) -> int {
    index_from(s, '[', 0)
}

/// Where the optional section of a prototype closes: its last `]`.
pub open spec fn section_close(s: Seq<char>) -> int {
    last_index_before(s, ']', s.len() as int)
}

/// The prototype has an optional section: a `]` follows its first `[`.
pub open spec fn has_section(s: Seq<char>) -> bool {
    section_open(s) < section_close(s)
}

/// The prototype with its optional section and the brackets around it removed.
pub open spec fn without_section(s: Seq<char>) -> Seq<char> {
    s.subrange(0, section_open(s)) + s.subrange(section_close(s) + 1, s.len() as int)
}

/// The prototype with the brackets around its optional section removed.
pub open spec fn with_section(s: Seq<char>) -> Seq<char> {
    s.subrange(0, section_open(s)) + s.subrange(section_open(s) + 1, section_close(s))
        + s.subrange(section_close(s) + 1, s.len() as int)
}

/// The concrete templates that a prototype stands for: without and then with
/// its optional section where it has one, else the prototype itself.
pub open spec fn expand(s: Seq<char>) -> Seq<Seq<char>> {
    if has_section(s) {
        seq![without_section(s), with_section(s)]
    } else {
        seq![s]
    }
}

/// The routes made from `templates`, each carrying `fields` as its request
/// fields.
pub open spec fn routes_are(r: Seq<TemplateUri>, templates: Seq<Seq<char>>, fields: Map<Seq<char>, Seq<char>>) -> bool {
    &&& r.len() == templates.len()
    &&& forall|i: int|
        0 <= i < r.len() ==> {
            &&& (#[trigger] r[i]).wf()
            &&& r[i].template@ == templates[i]
            &&& r[i].request_fields@ == fields
        }
}

/// The position of the first `c` in `s`, or its length.
fn find_first(s: &Vec<char>, c: char) -> (r: usize)
    ensures
        r == index_from(s@, c, 0),
        r <= s@.len(),
        r < s@.len() ==> s@[r as int] == c,
        forall|j: int| 0 <= j < r ==> s@[j] != c,
{
    let mut i: usize = 0;
    while i < s.len() && s[i] != c
        invariant
            0 <= i <= s@.len(),
            index_from(s@, c, 0) == index_from(s@, c, i as int),
            forall|j: int| 0 <= j < i ==> s@[j] != c,
        decreases s@.len() - i,
    {
        i = i + 1;
    }
    i
}

/// One past the position of the last `c` in `s`, or 0 where there is none.
fn find_last_end(s: &Vec<char>, c: char) -> (r: usize)
    ensures
        r as int - 1 == last_index_before(s@, c, s@.len() as int),
        r <= s@.len(),
        r > 0 ==> s@[r - 1] == c,
        forall|j: int| r <= j < s@.len() ==> s@[j] != c,
{
    let mut n: usize = s.len();
    while n > 0 && s[n - 1] != c
        invariant
            0 <= n <= s@.len(),
            last_index_before(s@, c, s@.len() as int) == last_index_before(s@, c, n as int),
            forall|j: int| n <= j < s@.len() ==> s@[j] != c,
        decreases n,
    {
        n = n - 1;
    }
    n
}

/// The route for one concrete template.
fn route(template: String, request_fields: &FieldMap) -> (r: TemplateUri)
    requires
        request_fields.wf(),
    ensures
        r.wf(),
        r.template@ == template@,
        r.request_fields@ == request_fields@,
{
    let parameters = extract_parameters(template.as_str());
    TemplateUri { template, parameters, request_fields: request_fields.cloned() }
}

/// Expands a route prototype into the concrete templates it stands for.
///
/// A prototype such as `[/r/{{subreddit}}]/about/banned` documents one
/// operation reachable both with and without the bracketed section; it gives
/// two routes, the one without the section first. A prototype without a
/// section gives one route, the prototype itself. Every route carries the
/// given request fields and the placeholders of its own template.
///
/// The section runs from the first `[` to the last `]`; a prototype with
/// several bracketed parts is thus read as one section holding them all.
pub fn uri_prototype_into_concrete(prototype: &str, request_fields: FieldMap) -> (r: Vec<TemplateUri>)
    requires
        request_fields.wf(),
    ensures
        routes_are(r@, expand(prototype@), request_fields@),
{
    let cs = crate::text::chars_of(prototype);
    let n = cs.len();
    let open = find_first(&cs, '[');
    let close_end = find_last_end(&cs, ']');
    let mut r: Vec<TemplateUri> = Vec::new();
    if close_end > 0 && open < close_end - 1 {
        let close = close_end - 1;
        let mut without = String::from_str(prototype.substring_char(0, open));
        without.append(prototype.substring_char(close + 1, n));
        let mut with = String::from_str(prototype.substring_char(0, open));
        with.append(prototype.substring_char(open + 1, close));
        with.append(prototype.substring_char(close + 1, n));
        r.push(route(without, &request_fields));
        r.push(route(with, &request_fields));
    } else {
        r.push(route(String::from_str(prototype), &request_fields));
    }
    r
}

/// Whether `c` must be escaped in a selector.
pub open spec fn is_special(c: char) -> bool {
    c == '{' || c == '}' || c == ':'
}

/// The selector text for one character of an identifier.
pub open spec fn escape_char(c: char) -> Seq<char> {
    if is_special(c) {
        seq!['\\', c]
    } else {
        seq![c]
    }
}

/// The identifier with a backslash put before each `{`, `}` and `:`.
pub open spec fn escape(s: Seq<char>) -> Seq<char>
    decreases s.len(),
{
    if s.len() == 0 {
        Seq::empty()
    } else {
        escape(s.drop_last()) + escape_char(s.last())
    }
}

/// Escapes the characters of an element identifier that are significant in a
/// selector, so that the selector built from it parses.
pub fn escape_special_characters(string: &str) -> (r: String)
    ensures
        r@ == escape(string@),
{
    let n = string.unicode_len();
    let mut r = String::new();
    let mut i: usize = 0;
    assert(string@.subrange(0, 0) =~= Seq::<char>::empty());
    while i < n
        invariant
            n == string@.len(),
            0 <= i <= n,
            r@ == escape(string@.subrange(0, i as int)),
        decreases n - i,
    {
        let ghost before = r@;
        let c = string.get_char(i);
        if c == '{' || c == '}' || c == ':' {
            proof {
                reveal_strlit("\\");
                assert("\\"@ =~= seq!['\\']);
            }
            r.append("\\");
        }
        let one = string.substring_char(i, i + 1);
        assert(one@ =~= seq![c]);
        r.append(one);
        proof {
            assert(r@ =~= before + escape_char(c));
            let p = string@.subrange(0, i + 1);
            assert(p.drop_last() =~= string@.subrange(0, i as int));
            assert(r@ =~= escape(p));
        }
        i = i + 1;
    }
    assert(string@.subrange(0, n as int) =~= string@);
    r
}

/// What one character of a section's title becomes in a file name.
pub open spec fn file_name_char(c: char) -> Seq<char> {
    if c == '&' {
        seq!['a', 'n', 'd']
    } else if c == ' ' {
        seq!['_']
    } else {
        seq![c]
    }
}

/// The file name for a section's title: `&` spelt out, spaces as underscores.
pub open spec fn file_name(s: Seq<char>) -> Seq<char>
    decreases s.len(),
{
    if s.len() == 0 {
        Seq::empty()
    } else {
        file_name(s.drop_last()) + file_name_char(s.last())
    }
}

/// The name of the files generated for a section, from the section's title.
pub fn section_file_name(header: &str) -> (r: String)
    ensures
        r@ == file_name(header@),
{
    let n = header.unicode_len();
    let mut r = String::new();
    let mut i: usize = 0;
    assert(header@.subrange(0, 0) =~= Seq::<char>::empty());
    while i < n
        invariant
            n == header@.len(),
            0 <= i <= n,
            r@ == file_name(header@.subrange(0, i as int)),
        decreases n - i,
    {
        let ghost before = r@;
        let c = header.get_char(i);
        if c == '&' {
            proof {
                reveal_strlit("and");
                assert("and"@ =~= seq!['a', 'n', 'd']);
            }
            r.append("and");
        } else if c == ' ' {
            proof {
                reveal_strlit("_");
                assert("_"@ =~= seq!['_']);
            }
            r.append("_");
        } else {
            let one = header.substring_char(i, i + 1);
            assert(one@ =~= seq![c]);
            r.append(one);
        }
        proof {
            let p = header@.subrange(0, i + 1);
            assert(p.drop_last() =~= header@.subrange(0, i as int));
            assert(r@ =~= before + file_name_char(c));
        }
        i = i + 1;
    }
    assert(header@.subrange(0, n as int) =~= header@);
    r
}

/// The method that an endpoint's link fragment names, such as `GET` in
/// `#GET_wiki_{page}`: the part before the first underscore, without its
/// leading `#`.
pub open spec fn fragment_verb(href: Seq<char>) -> Option<HttpVerb> {
    verb_named(trim_start_char(href.subrange(0, index_from(href, '_', 0)), '#'))
}

/// The method that an endpoint's link fragment names, if it names one.
pub fn verb_of_fragment(href: &str) -> (r: Option<HttpVerb>)
    ensures
        r == fragment_verb(href@),
{
    let word = word_before_underscore(href);
    let n = word.unicode_len();
    let mut start: usize = 0;
    assert(word@.subrange(0, n as int) =~= word@);
    while start < n && word.get_char(start) == '#'
        invariant
            n == word@.len(),
            0 <= start <= n,
            trim_start_char(word@, '#') == trim_start_char(word@.subrange(start as int, n as int), '#'),
        decreases n - start,
    {
        proof {
            let t = word@.subrange(start as int, n as int);
            assert(t.drop_first() =~= word@.subrange(start + 1, n as int));
        }
        start = start + 1;
    }
    let method = word.substring_char(start, n);
    HttpVerb::parse(method)
}

/// The part of `s` before its first underscore, or all of `s`.
pub fn word_before_underscore(s: &str) -> (r: &str)
    ensures
        r@ == s@.subrange(0, index_from(s@, '_', 0)),
{
    let cs = crate::text::chars_of(s);
    let k = find_first(&cs, '_');
    s.substring_char(0, k)
}

/// A child of a documentation element: a run of text, or an element with its
/// tag name and its inner markup.
#[derive(Debug)]
pub enum InlineNode {
    Text(String),
    Element { name: String, inner_html: String },
}

/// What one child contributes to its parent's flattened text: text as it is,
/// an emphasised element as a placeholder around its content, nothing for a
/// link or an annotation, the inner markup of any other element.
pub open spec fn node_text(n: InlineNode) -> Seq<char> {
    match n {
        InlineNode::Text(t) => t@,
        InlineNode::Element { name, inner_html } => {
            if name@ == "span"@ || name@ == "a"@ {
                Seq::empty()
            } else if name@ == "em"@ {
                "{{"@ + inner_html@ + "}}"@
            } else {
                inner_html@
            }
        },
    }
}

/// The contributions of the children, in document order.
pub open spec fn flatten(ns: Seq<InlineNode>) -> Seq<char>
    decreases ns.len(),
{
    if ns.len() == 0 {
        Seq::empty()
    } else {
        flatten(ns.drop_last()) + node_text(ns.last())
    }
}

/// The flattened text of the children, or `None` where it is empty.
pub open spec fn flattened(ns: Seq<InlineNode>) -> Option<Seq<char>> {
    if flatten(ns).len() == 0 {
        None
    } else {
        Some(flatten(ns))
    }
}

/// Renders an element's children as one string, placeholders for emphasised
/// children included; `None` where nothing is rendered.
pub fn collect_children_as_string(children: &Vec<InlineNode>) -> (r: Option<String>)
    ensures
        match r {
            Some(s) => flattened(children@) == Some(s@),
            None => flattened(children@) is None,
        },
{
    let mut acc = String::new();
    let mut i: usize = 0;
    assert(children@.subrange(0, 0) =~= Seq::<InlineNode>::empty());
    while i < children.len()
        invariant
            0 <= i <= children@.len(),
            acc@ == flatten(children@.subrange(0, i as int)),
        decreases children@.len() - i,
    {
        let ghost before = acc@;
        match &children[i] {
            InlineNode::Text(t) => {
                acc.append(t.as_str());
            },
            InlineNode::Element { name, inner_html } => {
                if same_text(name.as_str(), "span") || same_text(name.as_str(), "a") {
                    // links and annotations contribute nothing
                } else if same_text(name.as_str(), "em") {
                    acc.append("{{");
                    acc.append(inner_html.as_str());
                    acc.append("}}");
                } else {
                    acc.append(inner_html.as_str());
                }
            },
        }
        proof {
            let p = children@.subrange(0, i + 1);
            assert(p.drop_last() =~= children@.subrange(0, i as int));
            assert(acc@ =~= before + node_text(children@[i as int]));
        }
        i = i + 1;
    }
    assert(children@.subrange(0, children@.len() as int) =~= children@);
    if acc.unicode_len() == 0 {
        None
    } else {
        Some(acc)
    }
}

/// A row of an endpoint's parameter table: the field's name and the first
/// paragraph of its description, if there is one.
#[derive(Debug)]
pub struct ParameterRow {
    pub name: String,
    pub description: Option<String>,
}

/// The detail block of one endpoint: the children of each item of its list of
/// route variants, the children of each of its signature headings, and the
/// rows of its parameter table.
#[derive(Debug)]
pub struct DetailBlock {
    pub uri_variants: Vec<Vec<InlineNode>>,
    pub signatures: Vec<Vec<InlineNode>>,
    pub parameter_rows: Vec<ParameterRow>,
}

/// A row's description, empty where the row has none.
pub open spec fn row_description(row: ParameterRow) -> Seq<char> {
    match row.description {
        Some(d) => d@,
        None => Seq::empty(),
    }
}

/// The fields that a parameter table documents, each name bound to its
/// description; of two rows with one name the later counts.
pub open spec fn rows_map(rows: Seq<ParameterRow>) -> Map<Seq<char>, Seq<char>>
    decreases rows.len(),
{
    if rows.len() == 0 {
        Map::empty()
    } else {
        rows_map(rows.drop_last()).insert(rows.last().name@, row_description(rows.last()))
    }
}

/// The prototype that a variant item gives once its leading arrows and the
/// white space around it are removed.
pub open spec fn variant_prototype(f: Seq<char>) -> Seq<char> {
    trim(strip_arrows(f))
}

/// The templates of a list of variant items, in order; an item with no
/// content gives none.
pub open spec fn variant_templates(vs: Seq<Vec<InlineNode>>) -> Seq<Seq<char>>
    decreases vs.len(),
{
    if vs.len() == 0 {
        Seq::empty()
    } else {
        variant_templates(vs.drop_last()) + match flattened(vs.last()@) {
            Some(f) => expand(variant_prototype(f)),
            None => Seq::empty(),
        }
    }
}

/// The flattened text of a detail block's first signature heading.
pub open spec fn signature(d: DetailBlock) -> Option<Seq<char>> {
    if d.signatures@.len() > 0 {
        flattened(d.signatures@[0]@)
    } else {
        None
    }
}

/// The templates that a detail block documents: those of its variant list
/// where it has one, else those of its signature, else none.
pub open spec fn detail_templates(d: DetailBlock) -> Seq<Seq<char>> {
    if d.uri_variants@.len() > 0 {
        variant_templates(d.uri_variants@)
    } else {
        match signature(d) {
            Some(s) => expand(s),
            None => Seq::empty(),
        }
    }
}

/// The request fields of an endpoint: its parameter table for a method that
/// carries a body, none otherwise.
pub open spec fn request_fields_for(d: DetailBlock, verb: HttpVerb) -> Map<Seq<char>, Seq<char>> {
    if carries_body(verb) {
        rows_map(d.parameter_rows@)
    } else {
        Map::empty()
    }
}

/// The fields documented in a detail block's parameter table.
pub fn get_request_body_from_api_details(api_detail: &DetailBlock) -> (r: FieldMap)
    ensures
        r.wf(),
        r@ == rows_map(api_detail.parameter_rows@),
{
    let rows = &api_detail.parameter_rows;
    let mut r = FieldMap::new();
    let mut i: usize = 0;
    assert(rows@.subrange(0, 0) =~= Seq::<ParameterRow>::empty());
    while i < rows.len()
        invariant
            0 <= i <= rows@.len(),
            r.wf(),
            r@ == rows_map(rows@.subrange(0, i as int)),
        decreases rows@.len() - i,
    {
        let row = &rows[i];
        let description = match &row.description {
            Some(d) => d.clone(),
            None => String::new(),
        };
        r.insert(row.name.clone(), description);
        proof {
            let p = rows@.subrange(0, i + 1);
            assert(p.drop_last() =~= rows@.subrange(0, i as int));
        }
        i = i + 1;
    }
    assert(rows@.subrange(0, rows@.len() as int) =~= rows@);
    r
}

/// The flattened text of a detail block's first signature heading, if any.
pub fn get_api_from_api_details(api_detail: &DetailBlock) -> (r: Option<String>)
    ensures
        match r {
            Some(s) => signature(*api_detail) == Some(s@),
            None => signature(*api_detail) is None,
        },
{
    if api_detail.signatures.len() > 0 {
        collect_children_as_string(&api_detail.signatures[0])
    } else {
        None
    }
}

/// Routes of two lists, one after the other, are the routes of the joined
/// lists of templates.
proof fn lemma_routes_concat(
    a: Seq<TemplateUri>,
    ta: Seq<Seq<char>>,
    b: Seq<TemplateUri>,
    tb: Seq<Seq<char>>,
    fields: Map<Seq<char>, Seq<char>>,
)
    requires
        routes_are(a, ta, fields),
        routes_are(b, tb, fields),
    ensures
        routes_are(a + b, ta + tb, fields),
{
    assert forall|i: int| 0 <= i < (a + b).len() implies {
        &&& (#[trigger] (a + b)[i]).wf()
        &&& (a + b)[i].template@ == (ta + tb)[i]
        &&& (a + b)[i].request_fields@ == fields
    } by {
        if i >= a.len() {
            assert((a + b)[i] == b[i - a.len()]);
        }
    }
}

/// Resolves the routes of one endpoint from the detail blocks found for it.
///
/// Only the first block is read. Its variant list, where it has one, gives
/// the routes of each item in turn; else its signature heading gives the
/// routes; else there are none. Every route carries the block's request
/// fields where the method carries a body, and no request fields otherwise.
pub fn get_uri_from_api_details(api_details: &Vec<DetailBlock>, http_verb: &HttpVerb) -> (r: Vec<TemplateUri>)
    ensures
        api_details@.len() == 0 ==> r@.len() == 0,
        api_details@.len() > 0 ==> routes_are(
            r@,
            detail_templates(api_details@[0]),
            request_fields_for(api_details@[0], *http_verb),
        ),
{
    if api_details.len() == 0 {
        return Vec::new();
    }
    let api_detail = &api_details[0];
    let request_fields = if http_verb.carries_body() {
        get_request_body_from_api_details(api_detail)
    } else {
        FieldMap::new()
    };
    let ghost fields = request_fields@;
    let uri_variants = &api_detail.uri_variants;
    if uri_variants.len() > 0 {
        let mut variants: Vec<TemplateUri> = Vec::new();
        let mut i: usize = 0;
        assert(uri_variants@.subrange(0, 0) =~= Seq::<Vec<InlineNode>>::empty());
        while i < uri_variants.len()
            invariant
                0 <= i <= uri_variants@.len(),
                request_fields.wf(),
                request_fields@ == fields,
                routes_are(variants@, variant_templates(uri_variants@.subrange(0, i as int)), fields),
            decreases uri_variants@.len() - i,
        {
            let ghost done = variants@;
            let ghost p = uri_variants@.subrange(0, i + 1);
            assert(p.drop_last() =~= uri_variants@.subrange(0, i as int));
            match collect_children_as_string(&uri_variants[i]) {
                Some(text) => {
                    let prototype = strip_variant_marker(text.as_str());
                    let mut more = uri_prototype_into_concrete(prototype.as_str(), request_fields.cloned());
                    proof {
                        lemma_routes_concat(done, variant_templates(p.drop_last()), more@,
                            expand(prototype@), fields);
                    }
                    variants.append(&mut more);
                },
                None => {
                    assert(variant_templates(p) =~= variant_templates(p.drop_last()));
                },
            }
            i = i + 1;
        }
        assert(uri_variants@.subrange(0, uri_variants@.len() as int) =~= uri_variants@);
        return variants;
    }
    match get_api_from_api_details(api_detail) {
        Some(api) => uri_prototype_into_concrete(api.as_str(), request_fields),
        None => Vec::new(),
    }
}

/// Without a `c` from index `i` on, the search runs to the end.
proof fn lemma_index_from_absent(s: Seq<char>, c: char, i: int)
    requires
        0 <= i <= s.len(),
        forall|j: int| i <= j < s.len() ==> s[j] != c,
    ensures
        index_from(s, c, i) == s.len(),
    decreases s.len() - i,
{
    if i < s.len() {
        lemma_index_from_absent(s, c, i + 1);
    }
}

/// The last `c` below `n` stands below `n`.
proof fn lemma_last_index_below(s: Seq<char>, c: char, n: int)
    requires
        0 <= n <= s.len(),
    ensures
        last_index_before(s, c, n) < n,
    decreases n,
{
    if n > 0 {
        lemma_last_index_below(s, c, n - 1);
    }
}

/// A string holds no bracket.
pub open spec fn bracket_free(s: Seq<char>) -> bool {
    forall|j: int| 0 <= j < s.len() ==> s[j] != '[' && s[j] != ']'
}

/// A template free of brackets expands to itself alone: expanding it again
/// changes nothing.
pub proof fn lemma_bracket_free_expands_to_itself(s: Seq<char>)
    requires
        bracket_free(s),
    ensures
        expand(s) == seq![s],
{
    lemma_index_from_absent(s, '[', 0);
    lemma_last_index_below(s, ']', s.len() as int);
}

/// Expanding again a bracket-free template that an expansion produced gives
/// that template alone.
pub proof fn lemma_reexpansion_is_identity(prototype: Seq<char>, i: int)
    requires
        0 <= i < expand(prototype).len(),
        bracket_free(expand(prototype)[i]),
    ensures
        expand(expand(prototype)[i]) == seq![expand(prototype)[i]],
{
    lemma_bracket_free_expands_to_itself(expand(prototype)[i]);
}

/// Every placeholder in a route's template is a key of its parameters, bound
/// to the placeholder's name, and every key is such a placeholder.
pub proof fn lemma_placeholder_fidelity(route: TemplateUri, k: Seq<char>)
    requires
        route.wf(),
    ensures
        route.parameters@.contains_key(k) <==> exists|i: int|
            placeholder_at(route.template@, i) && placeholder_text_at(route.template@, i) == k,
        route.parameters@.contains_key(k) ==> route.parameters@[k] == placeholder_name(k),
{
    if exists|i: int| placeholder_at(route.template@, i) && placeholder_text_at(route.template@, i) == k {
        let i = choose|i: int| placeholder_at(route.template@, i) && placeholder_text_at(route.template@, i) == k;
        assert(0 <= i < route.template@.len());
    }
}

/// A detail block with neither a variant list nor a signature heading with
/// content documents no route.
pub proof fn lemma_no_structure_no_routes(d: DetailBlock)
    requires
        d.uri_variants@.len() == 0,
        d.signatures@.len() == 0 || flatten(d.signatures@[0]@).len() == 0,
    ensures
        detail_templates(d).len() == 0,
{
}

/// Children that render nothing give absence, not an empty string.
pub proof fn lemma_empty_content_is_absent(ns: Seq<InlineNode>)
    requires
        forall|i: int| 0 <= i < ns.len() ==> node_text(#[trigger] ns[i]).len() == 0,
    ensures
        flattened(ns) is None,
    decreases ns.len(),
{
    if ns.len() > 0 {
        lemma_empty_content_is_absent(ns.drop_last());
    }
}

/// A method that carries no body gets no request fields, whatever the
/// parameter table holds.
pub proof fn lemma_bodiless_method_has_no_fields(d: DetailBlock, verb: HttpVerb)
    requires
        !carries_body(verb),
    ensures
        request_fields_for(d, verb) == Map::<Seq<char>, Seq<char>>::empty(),
{
}

/// Reads an escaped identifier back: a special character is taken together
/// with the backslash before it.
pub open spec fn unescape(t: Seq<char>) -> Seq<char>
    decreases t.len(),
{
    if t.len() == 0 {
        Seq::empty()
    } else if t.len() >= 2 && is_special(t.last()) {
        unescape(t.subrange(0, t.len() - 2)) + seq![t.last()]
    } else {
        unescape(t.drop_last()) + seq![t.last()]
    }
}

/// Escaping loses nothing: the identifier is read back from its escaped form.
pub proof fn lemma_escape_round_trip(s: Seq<char>)
    ensures
        unescape(escape(s)) == s,
    decreases s.len(),
{
    if s.len() > 0 {
        lemma_escape_round_trip(s.drop_last());
        let t = escape(s);
        let p = escape(s.drop_last());
        if is_special(s.last()) {
            assert(t.subrange(0, t.len() - 2) =~= p);
        } else {
            assert(t.drop_last() =~= p);
        }
        assert(s.drop_last() + seq![s.last()] =~= s);
    }
}

/// In an escaped identifier each `{`, `}` and `:` has a backslash before it.
pub proof fn lemma_escape_marks_specials(s: Seq<char>)
    ensures
        forall|j: int|
            0 <= j < escape(s).len() && is_special(#[trigger] escape(s)[j]) ==> j > 0 && escape(s)[j - 1]
                == '\\',
    decreases s.len(),
{
    if s.len() > 0 {
        lemma_escape_marks_specials(s.drop_last());
        let p = escape(s.drop_last());
        let t = escape(s);
        assert forall|j: int| 0 <= j < t.len() && is_special(#[trigger] t[j]) implies j > 0 && t[j - 1]
            == '\\' by {
            if j < p.len() {
                assert(t[j] == p[j]);
                assert(t[j - 1] == p[j - 1]);
            }
        }
    }
}

} // verus!
