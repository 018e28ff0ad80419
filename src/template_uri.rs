use vstd::prelude::*;
use crate::field_map::FieldMap;
use crate::text::{alphanumeric, chars_of, is_alphanumeric};

verus! {

/// An ASCII letter, digit or underscore.
pub open spec fn is_ascii_word_char(c: char) -> bool {
    let u = c as u32;
    ||| 0x30 <= u <= 0x39
    ||| 0x41 <= u <= 0x5a
    ||| 0x61 <= u <= 0x7a
    ||| c == '_'
}

/// A character that may stand in a placeholder's name: an ASCII letter, digit
/// or underscore, or a character beyond ASCII that is alphanumeric.
///
/// On ASCII this is the `\w` class of regular expressions. Beyond ASCII the
/// two differ a little: `\w` also takes combining marks and connector
/// punctuation, and leaves out numerals such as `²`, which are alphanumeric.
pub open spec fn is_word_char(c: char) -> bool {
    if (c as u32) < 0x80 {
        is_ascii_word_char(c)
    } else {
        alphanumeric(c)
    }
}

/// The number of consecutive word characters of `s` from index `i` on.
pub open spec fn word_run(s: Seq<char>, i: int) -> nat
    decreases s.len() - i,
{
    if 0 <= i < s.len() && is_word_char(s[i]) {
        1 + word_run(s, i + 1)
    } else {
        0
    }
}

/// A placeholder `{{name}}` starts at index `i` of `s`, its name being a
/// nonempty run of word characters.
pub open spec fn placeholder_at(s: Seq<char>, i: int) -> bool {
    let r = word_run(s, i + 2);
    &&& 0 <= i
    &&& i + 3 + r < s.len()
    &&& s[i] == '{'
    &&& s[i + 1] == '{'
    &&& r > 0
    &&& s[i + 2 + r] == '}'
    &&& s[i + 3 + r] == '}'
}

/// The text of the placeholder that starts at index `i` of `s`.
pub open spec fn placeholder_text_at(s: Seq<char>, i: int) -> Seq<char> {
    s.subrange(i, i + 4 + word_run(s, i + 2))
}

/// `k` is the text of a placeholder that occurs in `s` at an index below `n`.
pub open spec fn placeholder_before(s: Seq<char>, n: int, k: Seq<char>) -> bool {
    exists|i: int| 0 <= i < n && placeholder_at(s, i) && placeholder_text_at(s, i) == k
}

/// The name inside a placeholder's text `{{name}}`.
pub open spec fn placeholder_name(k: Seq<char>) -> Seq<char> {
    k.subrange(2, k.len() - 2)
}

/// The placeholders of `s`: each placeholder's text, bound to its name.
pub open spec fn placeholder_map(s: Seq<char>) -> Map<Seq<char>, Seq<char>> {
    Map::new(|k: Seq<char>| placeholder_before(s, s.len() as int, k), |k: Seq<char>| placeholder_name(k))
}

/// The placeholders of `s` that start below index `n`.
pub open spec fn placeholder_map_before(s: Seq<char>, n: int) -> Map<Seq<char>, Seq<char>> {
    Map::new(|k: Seq<char>| placeholder_before(s, n, k), |k: Seq<char>| placeholder_name(k))
}

/// One parameter as it is listed in a route's description: `"key": "value"`.
pub open spec fn entry_text(e: (String, String)) -> Seq<char> {
    "\""@ + e.0@ + "\": \""@ + e.1@ + "\""@
}

/// The parameters as listed in a route's description, separated by commas.
pub open spec fn entries_text(es: Seq<(String, String)>) -> Seq<char>
    decreases es.len(),
{
    if es.len() == 0 {
        Seq::empty()
    } else if es.len() == 1 {
        entry_text(es[0])
    } else {
        entries_text(es.drop_last()) + ", "@ + entry_text(es.last())
    }
}

/// A concrete route: a path with placeholders, the placeholders it holds, and
/// the fields of its request body.
pub struct TemplateUri {
    pub template: String,
    pub parameters: FieldMap,
    pub request_fields: FieldMap,
}

impl TemplateUri {
    /// The parameters are exactly the placeholders of the template.
    pub open spec fn wf(&self) -> bool {
        &&& self.parameters.wf()
        &&& self.request_fields.wf()
        &&& self.parameters@ == placeholder_map(self.template@)
    }

    /// A one-line description of the route: its template, then its
    /// parameters in braces, in the order in which they occur.
    pub fn to_display_string(&self) -> (r: String)
        ensures
            r@ == self.template@ + ", {"@ + entries_text(self.parameters.entry_seq()) + "}"@,
    {
        let es = self.parameters.entries();
        let mut r = self.template.clone();
        r.append(", {");
        let ghost head = r@;
        let mut i: usize = 0;
        assert(es@.subrange(0, 0) =~= Seq::<(String, String)>::empty());
        assert(r@ =~= head + entries_text(es@.subrange(0, 0)));
        while i < es.len()
            invariant
                0 <= i <= es@.len(),
                r@ == head + entries_text(es@.subrange(0, i as int)),
            decreases es@.len() - i,
        {
            let ghost before = r@;
            if i > 0 {
                r.append(", ");
            }
            r.append("\"");
            r.append(es[i].0.as_str());
            r.append("\": \"");
            r.append(es[i].1.as_str());
            r.append("\"");
            proof {
                let p = es@.subrange(0, i + 1);
                assert(p.drop_last() =~= es@.subrange(0, i as int));
                if i == 0 {
                    assert(r@ =~= head + entry_text(p[0]));
                } else {
                    assert(r@ =~= before + ", "@ + entry_text(p.last()));
                }
            }
            i = i + 1;
        }
        assert(es@.subrange(0, es@.len() as int) =~= es@);
        r.append("}");
        r
    }

}

/// Whether `c` may stand in a placeholder's name.
pub fn word_char(c: char) -> (r: bool)
    ensures
        r == is_word_char(c),
{
    let u = c as u32;
    if u < 0x80 {
        (0x30 <= u && u <= 0x39) || (0x41 <= u && u <= 0x5a) || (0x61 <= u && u <= 0x7a) || c == '_'
    } else {
        is_alphanumeric(c)
    }
}

/// The length of the run of word characters of `s` from index `i` on.
fn word_run_len(s: &Vec<char>, i: usize) -> (r: usize)
    requires
        i <= s@.len(),
    ensures
        r == word_run(s@, i as int),
        i + r <= s@.len(),
{
    let mut j: usize = i;
    while j < s.len() && word_char(s[j])
        invariant
            i <= j <= s@.len(),
            word_run(s@, i as int) == (j - i) + word_run(s@, j as int),
        decreases s@.len() - j,
    {
        j = j + 1;
    }
    j - i
}

/// The placeholders of `s`, each placeholder's text bound to its name.
pub fn extract_parameters(s: &str) -> (r: FieldMap)
    ensures
        r.wf(),
        r@ == placeholder_map(s@),
{
    let cs = chars_of(s);
    let n = cs.len();
    let mut r = FieldMap::new();
    let mut i: usize = 0;
    assert(r@ =~= placeholder_map_before(s@, 0));
    while i < n
        invariant
            cs@ == s@,
            n == s@.len(),
            0 <= i <= n,
            r.wf(),
            r@ == placeholder_map_before(s@, i as int),
        decreases n - i,
    {
        let ghost before = r@;
        let mut found = false;
        if n - i > 3 && cs[i] == '{' && cs[i + 1] == '{' {
            let w = word_run_len(&cs, i + 2);
            if w > 0 && w < n - i - 3 && cs[i + 2 + w] == '}' && cs[i + 3 + w] == '}' {
                let key = String::from_str(s.substring_char(i, i + 4 + w));
                let name = String::from_str(s.substring_char(i + 2, i + 2 + w));
                proof {
                    assert(placeholder_at(s@, i as int));
                    assert(name@ =~= placeholder_name(key@));
                }
                r.insert(key, name);
                found = true;
            }
        }
        proof {
            assert(found == placeholder_at(s@, i as int));
            assert forall|k: Seq<char>|
                placeholder_before(s@, i + 1, k) <==> (placeholder_before(s@, i as int, k)
                    || (placeholder_at(s@, i as int) && placeholder_text_at(s@, i as int) == k)) by {
                if placeholder_before(s@, i + 1, k) {
                    let m = choose|m: int|
                        0 <= m < i + 1 && placeholder_at(s@, m) && placeholder_text_at(s@, m) == k;
                    if m < i {
                        assert(placeholder_before(s@, i as int, k));
                    }
                }
            }
            assert(r@ =~= placeholder_map_before(s@, i + 1));
        }
        i = i + 1;
    }
    proof {
        assert(r@ =~= placeholder_map(s@));
    }
    r
}

/// The placeholder text `{{x}}` for a name `x`.
pub open spec fn braced(x: Seq<char>) -> Seq<char> {
    seq!['{', '{'] + x + seq!['}', '}']
}

/// A nonempty name made of word characters.
pub open spec fn is_word(x: Seq<char>) -> bool {
    x.len() > 0 && forall|j: int| 0 <= j < x.len() ==> is_word_char(#[trigger] x[j])
}

/// A run of word characters that ends where a non-word character or the end
/// of the string stands has exactly its own length.
proof fn lemma_word_run_is(t: Seq<char>, start: int, len: nat)
    requires
        0 <= start,
        start + len <= t.len(),
        forall|m: int| 0 <= m < len ==> is_word_char(#[trigger] t[start + m]),
        start + len < t.len() ==> !is_word_char(t[start + len]),
    ensures
        word_run(t, start) == len,
    decreases len,
{
    if len > 0 {
        assert forall|m: int| 0 <= m < len - 1 implies is_word_char(#[trigger] t[start + 1 + m]) by {
            assert(is_word_char(t[start + (m + 1)]));
        }
        lemma_word_run_is(t, start + 1, (len - 1) as nat);
        assert(is_word_char(t[start + 0]));
    }
}

/// Every character of a run of word characters is a word character.
proof fn lemma_word_run_chars(t: Seq<char>, start: int)
    requires
        0 <= start,
    ensures
        start + word_run(t, start) <= t.len() || word_run(t, start) == 0,
        forall|m: int| 0 <= m < word_run(t, start) ==> is_word_char(#[trigger] t[start + m]),
    decreases t.len() - start,
{
    if 0 <= start < t.len() && is_word_char(t[start]) {
        lemma_word_run_chars(t, start + 1);
        assert forall|m: int| 0 <= m < word_run(t, start) implies is_word_char(#[trigger] t[start + m]) by {
            if m > 0 {
                assert(t[start + m] == t[(start + 1) + (m - 1)]);
            }
        }
    }
}

/// Every occurrence of `{{x}}` in a route's template, `x` a word, is a key of
/// the route's parameters, bound to `x`.
pub proof fn lemma_placeholder_occurrence_is_key(route: TemplateUri, i: int, x: Seq<char>)
    requires
        route.wf(),
        is_word(x),
        0 <= i,
        i + x.len() + 4 <= route.template@.len(),
        route.template@.subrange(i, i + x.len() + 4) == braced(x),
    ensures
        route.parameters@.contains_key(braced(x)),
        route.parameters@[braced(x)] == x,
{
    let t = route.template@;
    let k = braced(x);
    assert forall|m: int| 0 <= m < x.len() implies is_word_char(#[trigger] t[(i + 2) + m]) by {
        assert(t[(i + 2) + m] == t.subrange(i, i + x.len() + 4)[m + 2]);
        assert(k[m + 2] == x[m]);
    }
    assert(t[i + 2 + x.len()] == t.subrange(i, i + x.len() + 4)[x.len() as int + 2]);
    assert(t[i] == t.subrange(i, i + x.len() + 4)[0]);
    assert(t[i + 1] == t.subrange(i, i + x.len() + 4)[1]);
    assert(t[i + 3 + x.len()] == t.subrange(i, i + x.len() + 4)[x.len() as int + 3]);
    lemma_word_run_is(t, i + 2, x.len());
    assert(placeholder_at(t, i));
    assert(placeholder_text_at(t, i) == k);
    assert(placeholder_before(t, t.len() as int, k));
    assert(placeholder_name(k) =~= x);
}

/// Every key of a route's parameters is `{{x}}` for a word `x` bound to it,
/// and occurs in the route's template.
pub proof fn lemma_key_is_placeholder_occurrence(route: TemplateUri, k: Seq<char>)
    requires
        route.wf(),
        route.parameters@.contains_key(k),
    ensures
        is_word(route.parameters@[k]),
        k == braced(route.parameters@[k]),
        exists|i: int|
            0 <= i && i + k.len() <= route.template@.len() && #[trigger] route.template@.subrange(i, i + k.len()) == k,
{
    let t = route.template@;
    let i = choose|i: int| 0 <= i < t.len() && placeholder_at(t, i) && placeholder_text_at(t, i) == k;
    let r = word_run(t, i + 2);
    lemma_word_run_chars(t, i + 2);
    let x = placeholder_name(k);
    assert(x =~= t.subrange(i + 2, i + 2 + r));
    assert forall|j: int| 0 <= j < x.len() implies is_word_char(#[trigger] x[j]) by {
        assert(x[j] == t[(i + 2) + j]);
    }
    assert(k =~= braced(x));
    assert(t.subrange(i, i + k.len()) == k);
}

} // verus!
