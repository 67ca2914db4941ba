//! Format strings whose `{name}` placeholders are filled from the fields of
//! the payload: the derive turns such a string into a `format!` call.

use vstd::prelude::*;
use vstd::string::StringExecFns;

verus! {

/// The first capture group of every match of `pattern` in `text`, in
/// order; or the text of the error when `pattern` is no regular expression.
pub uninterp spec fn spec_first_groups(pattern: Seq<char>, text: Seq<char>) -> Result<Seq<Seq<char>>, Seq<char>>;

/// An ASCII letter, digit or `_`: a character that `\w` matches.
pub open spec fn is_word_char(c: char) -> bool {
    ('a' <= c && c <= 'z') || ('A' <= c && c <= 'Z') || ('0' <= c && c <= '9') || c == '_'
}

/// A text without `{` or `}`.
pub open spec fn no_braces(s: Seq<char>) -> bool {
    forall|i: int| 0 <= i < s.len() ==> #[trigger] s[i] != '{' && s[i] != '}'
}

/// `text` holds exactly one pair of braces, around `name`, a non-empty run
/// of ASCII letters, digits and `_`: it is `a + "{" + name + "}" + b` with
/// no brace in `a` or `b`.
pub open spec fn lone_placeholder(text: Seq<char>, name: Seq<char>) -> bool {
    &&& name.len() > 0
    &&& forall|i: int| 0 <= i < name.len() ==> #[trigger] is_word_char(name[i])
    &&& exists|a: Seq<char>, b: Seq<char>|
        #![trigger no_braces(a), no_braces(b)]
        no_braces(a) && no_braces(b) && text == a + "{"@ + name + "}"@ + b
}

/// If `text` holds one lone placeholder, the names found are just its
/// name.
pub open spec fn lone_placeholder_found(text: Seq<char>, r: Result<Vec<String>, String>) -> bool {
    forall|name: Seq<char>| #[trigger] lone_placeholder(text, name)
        ==> (r matches Ok(v) && v@.map_values(|s: String| s@) == seq![name])
}

/// Compiles `pattern` with `regex::Regex::new` and collects, for each match
/// of `Regex::captures_iter` over `text`, the text of capture group 1 (the
/// empty text for a match where that group took no part). Claims that the
/// result is the one `spec_first_groups` names for the two strings, and,
/// for the placeholder pattern `\{(\w+)\}`, one fact the regex crate's
/// documented syntax gives: a text with one pair of braces around a run of
/// ASCII word characters (which `\w` matches) and no other brace has that
/// run as its only match's group.
#[verifier::external_body]
fn first_groups(pattern: &str, text: &str) -> (r: Result<Vec<String>, String>)
    ensures
        match r {
            Ok(v) => spec_first_groups(pattern@, text@) == Ok::<Seq<Seq<char>>, Seq<char>>(v@.map_values(|s: String| s@)),
            Err(e) => spec_first_groups(pattern@, text@) == Err::<Seq<Seq<char>>, Seq<char>>(e@),
        },
        pattern@ == "\\{(\\w+)\\}"@ ==> lone_placeholder_found(text@, r),
{
    match regex::Regex::new(pattern) {
        Ok(re) => {
            let mut out = Vec::new();
            for c in re.captures_iter(text) {
                out.push(c.get(1).map_or(String::new(), |m| m.as_str().to_string()));
            }
            Ok(out)
        },
        Err(e) => Err(e.to_string()),
    }
}

/// The placeholder pattern: a word between braces, the word captured.
pub open spec fn placeholder_pattern() -> Seq<char> {
    "\\{(\\w+)\\}"@
}

/// The names of the placeholders of `template`, in order, repeats kept.
pub open spec fn spec_placeholders(template: Seq<char>) -> Result<Seq<Seq<char>>, Seq<char>> {
    spec_first_groups(placeholder_pattern(), template)
}

/// The names of the placeholders `{name}` of `template`, in order: every
/// run of word characters between braces (a template with one such
/// placeholder and no other brace gives just its name).
pub fn placeholders(template: &str) -> (r: Result<Vec<String>, String>)
    ensures
        match r {
            Ok(v) => spec_placeholders(template@) == Ok::<Seq<Seq<char>>, Seq<char>>(v@.map_values(|s: String| s@)),
            Err(e) => spec_placeholders(template@) == Err::<Seq<Seq<char>>, Seq<char>>(e@),
        },
        lone_placeholder_found(template@, r),
{
    first_groups("\\{(\\w+)\\}", template)
}

/// The named arguments of the call: `, name=self.name` for each name.
pub open spec fn format_args(names: Seq<Seq<char>>) -> Seq<char>
    decreases names.len(),
{
    if names.len() == 0 {
        Seq::empty()
    } else {
        format_args(names.drop_last()) + ", "@ + names.last() + "=self."@ + names.last()
    }
}

/// The source of the `format!` call for `template` with one named argument
/// for each of `names`.
pub open spec fn format_call(template: Seq<char>, names: Seq<Seq<char>>) -> Seq<char> {
    "format!(\""@ + template + "\""@ + format_args(names) + ")"@
}

/// The `format!` call for `template` with one named argument `name=self.name`
/// for each of `names`, in order.
pub fn format_call_with(template: &str, names: &Vec<String>) -> (r: String)
    ensures
        r@ == format_call(template@, names@.map_values(|s: String| s@)),
{
    let ghost all = names@.map_values(|s: String| s@);
    let mut args = String::from_str("");
    proof {
        reveal_strlit("");
    }
    let n = names.len();
    let mut i: usize = 0;
    assert(all.take(0) =~= Seq::<Seq<char>>::empty());
    while i < n
        invariant
            n == names@.len(),
            all == names@.map_values(|s: String| s@),
            i <= n,
            args@ == format_args(all.take(i as int)),
        decreases n - i,
    {
        let name = names[i].as_str();
        let ghost before = args@;
        args = args.concat(", ").concat(name).concat("=self.").concat(name);
        assert(all.take(i + 1).drop_last() =~= all.take(i as int));
        assert(all.take(i + 1).last() == name@);
        assert(args@ =~= before + ", "@ + name@ + "=self."@ + name@);
        i = i + 1;
    }
    assert(all.take(n as int) =~= all);
    let r = String::from_str("format!(\"").concat(template).concat("\"").concat(args.as_str()).concat(")");
    r
}

/// Each name once, in the order of its first occurrence.
pub open spec fn unique_names(names: Seq<Seq<char>>) -> Seq<Seq<char>>
    decreases names.len(),
{
    if names.len() == 0 {
        Seq::empty()
    } else {
        let u = unique_names(names.drop_last());
        if u.contains(names.last()) {
            u
        } else {
            u.push(names.last())
        }
    }
}

/// Whether `name` is one of `names`.
fn contains_name(names: &Vec<String>, name: &String) -> (b: bool)
    ensures
        b == names@.map_values(|s: String| s@).contains(name@),
{
    let ghost all = names@.map_values(|s: String| s@);
    let n = names.len();
    let mut i: usize = 0;
    while i < n
        invariant
            n == names@.len(),
            all == names@.map_values(|s: String| s@),
            i <= n,
            forall|j: int| 0 <= j < i ==> all[j] != name@,
        decreases n - i,
    {
        if names[i] == *name {
            assert(all[i as int] == name@);
            return true;
        }
        i = i + 1;
    }
    false
}

/// Each name once, in the order of its first occurrence: a field named
/// twice in a template is one argument of the call.
pub fn unique(names: &Vec<String>) -> (r: Vec<String>)
    ensures
        r@.map_values(|s: String| s@) == unique_names(names@.map_values(|s: String| s@)),
{
    let ghost all = names@.map_values(|s: String| s@);
    let mut out: Vec<String> = Vec::new();
    let n = names.len();
    let mut i: usize = 0;
    assert(all.take(0) =~= Seq::<Seq<char>>::empty());
    assert(out@.map_values(|s: String| s@) =~= Seq::<Seq<char>>::empty());
    while i < n
        invariant
            n == names@.len(),
            all == names@.map_values(|s: String| s@),
            i <= n,
            out@.map_values(|s: String| s@) == unique_names(all.take(i as int)),
        decreases n - i,
    {
        assert(all.take(i + 1).drop_last() =~= all.take(i as int));
        assert(all.take(i + 1).last() == names@[i as int]@);
        if !contains_name(&out, &names[i]) {
            let ghost before = out@.map_values(|s: String| s@);
            out.push(names[i].clone());
            assert(out@.map_values(|s: String| s@) =~= before.push(names@[i as int]@));
        }
        i = i + 1;
    }
    assert(all.take(n as int) =~= all);
    out
}

/// The source of the `format!` call that fills `template` from the fields
/// its placeholders name, each field once, or the error of finding them.
pub open spec fn spec_format_source(template: Seq<char>) -> Result<Seq<char>, Seq<char>> {
    match spec_placeholders(template) {
        Ok(names) => Ok(format_call(template, unique_names(names))),
        Err(e) => Err(e),
    }
}

/// Turns `template` into the source of a `format!` call whose named
/// arguments are the fields its placeholders name, each once:
/// `"/api/{id}"` becomes `format!("/api/{id}", id=self.id)`.
pub fn format_source(template: &str) -> (r: Result<String, String>)
    ensures
        match spec_format_source(template@) {
            Ok(s) => r matches Ok(t) && t@ == s,
            Err(e) => r matches Err(t) && t@ == e,
        },
        forall|name: Seq<char>| #[trigger] lone_placeholder(template@, name)
            ==> (r matches Ok(t) && t@ == format_call(template@, seq![name])),
{
    match placeholders(template) {
        Ok(names) => {
            let u = unique(&names);
            proof {
                assert forall|name: Seq<char>| #[trigger] lone_placeholder(template@, name)
                    implies u@.map_values(|s: String| s@) == seq![name] by {
                    let all = names@.map_values(|s: String| s@);
                    assert(all == seq![name]);
                    assert(all.drop_last() =~= Seq::<Seq<char>>::empty());
                    assert(unique_names(all.drop_last()) =~= Seq::<Seq<char>>::empty());
                    assert(unique_names(all) =~= seq![name]);
                }
            }
            Ok(format_call_with(template, &u))
        },
        Err(e) => Err(e),
    }
}

/// A template with one placeholder `{name}` (a run of ASCII letters,
/// digits and `_`) and no other brace becomes the `format!` call of the
/// template with exactly that name as its one named argument, so the
/// placeholder is filled from the field of that name.
pub proof fn law_lone_placeholder_source(
    template: &str,
    r: Result<String, String>,
    a: Seq<char>,
    name: Seq<char>,
    b: Seq<char>,
)
    requires
        call_ensures(format_source, (template,), r),
        no_braces(a),
        no_braces(b),
        name.len() > 0,
        forall|i: int| 0 <= i < name.len() ==> #[trigger] is_word_char(name[i]),
        template@ == a + "{"@ + name + "}"@ + b,
    ensures
        r matches Ok(t) && t@ == "format!(\""@ + template@ + "\""@ + ", "@ + name + "=self."@ + name + ")"@,
{
    assert(lone_placeholder(template@, name));
    let one: Seq<Seq<char>> = seq![name];
    assert(one.drop_last() =~= Seq::<Seq<char>>::empty());
    assert(one.last() == name);
    assert(format_args(one.drop_last()) =~= Seq::<char>::empty());
    assert(format_args(one) =~= ", "@ + name + "=self."@ + name);
}


/// A template with one placeholder `{name}`, where `name` is a run of
/// ASCII letters, digits and `_` (so `{customer_id}` counts), and no other
/// brace: `placeholders` finds exactly that name, so the field is filled.
pub proof fn law_lone_placeholder_found(
    template: &str,
    r: Result<Vec<String>, String>,
    a: Seq<char>,
    name: Seq<char>,
    b: Seq<char>,
)
    requires
        call_ensures(placeholders, (template,), r),
        no_braces(a),
        no_braces(b),
        name.len() > 0,
        forall|i: int| 0 <= i < name.len() ==> #[trigger] is_word_char(name[i]),
        template@ == a + "{"@ + name + "}"@ + b,
    ensures
        r matches Ok(v) && v@.map_values(|s: String| s@) == seq![name],
{
    assert(lone_placeholder(template@, name));
}

/// A template without placeholders becomes a call with no named arguments.
pub proof fn law_no_placeholders(template: Seq<char>)
    ensures
        format_call(template, Seq::empty()) == "format!(\""@ + template + "\""@ + ")"@,
{
    assert(format_args(Seq::empty()) =~= Seq::<char>::empty());
    assert(format_call(template, Seq::empty()) =~= "format!(\""@ + template + "\""@ + ")"@);
}

/// The named arguments of two runs of names are the arguments of the first
/// followed by those of the second: each placeholder gets its own argument,
/// in the order of the template.
pub proof fn law_format_args_concat(a: Seq<Seq<char>>, b: Seq<Seq<char>>)
    ensures
        format_args(a + b) == format_args(a) + format_args(b),
    decreases b.len(),
{
    if b.len() == 0 {
        assert(a + b =~= a);
        assert(format_args(b) =~= Seq::<char>::empty());
        assert(format_args(a) + format_args(b) =~= format_args(a));
    } else {
        assert((a + b).drop_last() =~= a + b.drop_last());
        assert((a + b).last() == b.last());
        law_format_args_concat(a, b.drop_last());
        let l = b.last();
        assert(format_args(a + b) =~= format_args(a) + format_args(b));
    }
}


/// The names of a call hold no name twice, and hold exactly the names of
/// the placeholders.
pub proof fn law_unique_names(names: Seq<Seq<char>>)
    ensures
        forall|i: int, j: int| 0 <= i < j < unique_names(names).len() ==> unique_names(names)[i] != unique_names(names)[j],
        forall|x: Seq<char>| unique_names(names).contains(x) <==> names.contains(x),
    decreases names.len(),
{
    if names.len() > 0 {
        let t = names.drop_last();
        law_unique_names(t);
        let u = unique_names(t);
        assert forall|x: Seq<char>| unique_names(names).contains(x) <==> names.contains(x) by {
            if names.contains(x) {
                let k = choose|k: int| 0 <= k < names.len() && names[k] == x;
                if k < names.len() - 1 {
                    assert(t[k] == x);
                    assert(t.contains(x));
                }
            }
            if t.contains(x) {
                let k = choose|k: int| 0 <= k < t.len() && t[k] == x;
                assert(names[k] == x);
            }
            if !u.contains(names.last()) {
                let v = u.push(names.last());
                if v.contains(x) {
                    let k = choose|k: int| 0 <= k < v.len() && v[k] == x;
                    if k < u.len() {
                        assert(u[k] == x);
                    }
                }
                if u.contains(x) {
                    let k = choose|k: int| 0 <= k < u.len() && u[k] == x;
                    assert(v[k] == x);
                }
                assert(v[u.len() as int] == names.last());
            }
            assert(names[names.len() - 1] == names.last());
        }
        if !u.contains(names.last()) {
            let v = u.push(names.last());
            assert forall|i: int, j: int| 0 <= i < j < v.len() implies v[i] != v[j] by {
                if j == u.len() {
                    assert(v[i] == u[i]);
                    if v[i] == v[j] {
                        assert(u.contains(names.last()));
                    }
                } else {
                    assert(v[i] == u[i]);
                    assert(v[j] == u[j]);
                }
            }
        }
    }
}

} // verus!
