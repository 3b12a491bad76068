//! Helpers of the `tool` attribute, which turns a function into a tool:
//! reading the attribute's name and description, the tool's name and
//! description with their defaults, the tool type's name, and the JSON
//! Schema of the function's parameters.

use vstd::prelude::*;
use vstd::string::StrSliceExecFns;
use crate::text::text_eq;
use crate::json::{
    entry_views, field, jstr, jviews, lemma_array_view, lemma_object_view, set_entry, str_of, Json,
    JsonNumber, JsonView, NumberView,
};
use crate::error::ToolError;

verus! {

/// The uppercase form of a character, as `char::to_uppercase` gives it
/// (one or more characters).
pub uninterp spec fn uppercase(c: char) -> Seq<char>;

/// The uppercase form of a character.
#[verifier::external_body]
fn char_uppercase(c: char) -> (r: String)
    ensures
        r@ == uppercase(c),
{
    c.to_uppercase().to_string()
}

/// `s` in PascalCase, with `at_start` telling whether a word starts here:
/// underscores separate words and are dropped, and the first character of
/// each word is uppercased.
pub open spec fn pascal_from(s: Seq<char>, at_start: bool) -> Seq<char>
    decreases s.len(),
{
    if s.len() == 0 {
        Seq::empty()
    } else if s[0] == '_' {
        pascal_from(s.drop_first(), true)
    } else if at_start {
        uppercase(s[0]) + pascal_from(s.drop_first(), false)
    } else {
        seq![s[0]] + pascal_from(s.drop_first(), false)
    }
}

/// Converts a snake_case name to PascalCase.
pub fn to_pascal_case(s: &str) -> (r: String)
    ensures
        r@ == pascal_from(s@, true),
{
    let n = s.unicode_len();
    let mut out = String::new();
    let mut at_start = true;
    let mut i: usize = 0;
    assert(s@.subrange(0, n as int) =~= s@);
    while i < n
        invariant
            0 <= i <= n,
            n == s@.len(),
            out@ + pascal_from(s@.subrange(i as int, n as int), at_start) == pascal_from(s@, true),
        decreases n - i,
    {
        let ghost rest = s@.subrange(i as int, n as int);
        assert(rest.drop_first() =~= s@.subrange(i + 1, n as int));
        assert(rest[0] == s@[i as int]);
        let c = s.get_char(i);
        if c == '_' {
            at_start = true;
        } else if at_start {
            let u = char_uppercase(c);
            let ghost before = out@;
            out = out.concat(u.as_str());
            assert(before + (uppercase(c) + pascal_from(rest.drop_first(), false)) =~= out@
                + pascal_from(rest.drop_first(), false));
            at_start = false;
        } else {
            let piece = s.substring_char(i, i + 1);
            assert(piece@ =~= seq![c]);
            let ghost before = out@;
            out = out.concat(piece);
            assert(before + (seq![c] + pascal_from(rest.drop_first(), false)) =~= out@
                + pascal_from(rest.drop_first(), false));
        }
        i = i + 1;
    }
    assert(out@ + pascal_from(s@.subrange(n as int, n as int), at_start) =~= out@);
    out
}

/// Whether `c` has the Unicode `White_Space` property, the whitespace of
/// `str::trim`.
pub open spec fn is_white_space(c: char) -> bool {
    let n = c as u32;
    ||| 0x9 <= n <= 0xD
    ||| n == 0x20
    ||| n == 0x85
    ||| n == 0xA0
    ||| n == 0x1680
    ||| 0x2000 <= n <= 0x200A
    ||| n == 0x2028
    ||| n == 0x2029
    ||| n == 0x202F
    ||| n == 0x205F
    ||| n == 0x3000
}

/// `s` without its leading whitespace.
pub open spec fn trim_start(s: Seq<char>) -> Seq<char>
    decreases s.len(),
{
    if s.len() > 0 && is_white_space(s[0]) {
        trim_start(s.drop_first())
    } else {
        s
    }
}

/// `s` without its trailing whitespace.
pub open spec fn trim_end(s: Seq<char>) -> Seq<char>
    decreases s.len(),
{
    if s.len() > 0 && is_white_space(s.last()) {
        trim_end(s.drop_last())
    } else {
        s
    }
}

/// `s` without leading and trailing whitespace, as `str::trim` gives it.
pub open spec fn trimmed(s: Seq<char>) -> Seq<char> {
    trim_end(trim_start(s))
}

/// Whether `c` has the Unicode `White_Space` property.
fn white_space(c: char) -> (r: bool)
    ensures
        r == is_white_space(c),
{
    let n = c as u32;
    (0x9 <= n && n <= 0xD) || n == 0x20 || n == 0x85 || n == 0xA0 || n == 0x1680 || (0x2000 <= n
        && n <= 0x200A) || n == 0x2028 || n == 0x2029 || n == 0x202F || n == 0x205F || n == 0x3000
}

/// `s` without the characters of the Unicode `White_Space` property at
/// either end, as `str::trim` gives it.
fn trim_text(s: &str) -> (r: &str)
    ensures
        r@ == trimmed(s@),
{
    let n = s.unicode_len();
    let mut i: usize = 0;
    assert(s@.subrange(0, n as int) =~= s@);
    while i < n && white_space(s.get_char(i))
        invariant
            0 <= i <= n,
            n == s@.len(),
            trim_start(s@) == trim_start(s@.subrange(i as int, n as int)),
        decreases n - i,
    {
        assert(s@.subrange(i as int, n as int).drop_first() =~= s@.subrange(i + 1, n as int));
        i = i + 1;
    }
    let ghost front = s@.subrange(i as int, n as int);
    assert(trim_start(s@) == front);
    let mut end: usize = n;
    assert(front.subrange(0, (n - i) as int) =~= front);
    while end > i && white_space(s.get_char(end - 1))
        invariant
            i <= end <= n,
            n == s@.len(),
            front == s@.subrange(i as int, n as int),
            trim_end(front) == trim_end(s@.subrange(i as int, end as int)),
        decreases end,
    {
        assert(s@.subrange(i as int, end as int).drop_last() =~= s@.subrange(i as int, end - 1));
        end = end - 1;
    }
    assert(trim_end(s@.subrange(i as int, end as int)) == s@.subrange(i as int, end as int));
    s.substring_char(i, end)
}

/// The JSON Schema type of a Rust type name (after trimming): strings,
/// booleans, integers and floating-point numbers by name; anything else is
/// an object.
pub open spec fn json_type_of(ty: Seq<char>) -> Seq<char> {
    if ty == "String"@ || ty == "&str"@ || ty == "str"@ {
        "string"@
    } else if ty == "bool"@ {
        "boolean"@
    } else if ty == "i8"@ || ty == "i16"@ || ty == "i32"@ || ty == "i64"@ || ty == "u8"@ || ty
        == "u16"@ || ty == "u32"@ || ty == "u64"@ || ty == "isize"@ || ty == "usize"@ {
        "integer"@
    } else if ty == "f32"@ || ty == "f64"@ {
        "number"@
    } else {
        "object"@
    }
}

/// The JSON Schema type of a Rust type.
pub fn rust_type_to_json_type(ty: &str) -> (r: &'static str)
    ensures
        r@ == json_type_of(trimmed(ty@)),
{
    let t = trim_text(ty);
    if text_eq(t, "String") || text_eq(t, "&str") || text_eq(t, "str") {
        "string"
    } else if text_eq(t, "bool") {
        "boolean"
    } else if text_eq(t, "i8") || text_eq(t, "i16") || text_eq(t, "i32") || text_eq(t, "i64")
        || text_eq(t, "u8") || text_eq(t, "u16") || text_eq(t, "u32") || text_eq(t, "u64")
        || text_eq(t, "isize") || text_eq(t, "usize") {
        "integer"
    } else if text_eq(t, "f32") || text_eq(t, "f64") {
        "number"
    } else {
        "object"
    }
}

/// The name and description of a tool made from function `fn_name`: the
/// ones given in the attribute, or the function's name and
/// `"Tool: <function name>"`.
pub fn tool_identity(fn_name: &str, name: Option<String>, description: Option<String>) -> (r: (
    String,
    String,
))
    ensures
        r.0@ == match name {
            Some(n) => n@,
            None => fn_name@,
        },
        r.1@ == match description {
            Some(d) => d@,
            None => "Tool: "@ + fn_name@,
        },
{
    let n = match name {
        Some(n) => n,
        None => String::from_str(fn_name),
    };
    let d = match description {
        Some(d) => d,
        None => String::from_str("Tool: ").concat(fn_name),
    };
    (n, d)
}

/// The schema of one parameter of Rust type `ty`.
pub open spec fn parameter_schema(ty: Seq<char>) -> JsonView {
    JsonView::Object(seq![("type"@, JsonView::Str(json_type_of(trimmed(ty))))])
}

/// The properties of a tool's schema: each parameter under its name, a
/// later parameter of the same name replacing an earlier one in place.
pub open spec fn schema_properties(params: Seq<(Seq<char>, Seq<char>)>) -> Seq<(Seq<char>, JsonView)>
    decreases params.len(),
{
    if params.len() == 0 {
        Seq::empty()
    } else {
        set_entry(
            schema_properties(params.drop_last()),
            params.last().0,
            parameter_schema(params.last().1),
        )
    }
}

/// The JSON Schema of a tool made from a function with parameters
/// `params` (name, Rust type): an object whose properties are the
/// parameters, all of them required.
pub open spec fn tool_schema(params: Seq<(Seq<char>, Seq<char>)>) -> JsonView {
    JsonView::Object(
        seq![
            ("properties"@, JsonView::Object(schema_properties(params))),
            (
                "required"@,
                JsonView::Array(params.map_values(|p: (Seq<char>, Seq<char>)| JsonView::Str(p.0))),
            ),
            ("type"@, JsonView::Str("object"@)),
        ],
    )
}

/// The JSON Schema of a tool made from a function with parameters
/// `params`, each a name and a Rust type.
pub fn tool_parameters_schema(params: &Vec<(String, String)>) -> (r: Json)
    ensures
        r@ == tool_schema(params@.map_values(|p: (String, String)| (p.0@, p.1@))),
{
    let ghost pv = params@.map_values(|p: (String, String)| (p.0@, p.1@));
    let no_entries: Vec<(String, Json)> = Vec::new();
    proof {
        lemma_object_view(no_entries);
    }
    assert(entry_views(no_entries@) =~= Seq::<(Seq<char>, JsonView)>::empty());
    let mut properties = Json::Object(no_entries);
    let mut required: Vec<Json> = Vec::new();
    proof {
        lemma_array_view(required);
    }
    assert(pv.subrange(0, 0) =~= Seq::<(Seq<char>, Seq<char>)>::empty());
    assert(properties@ =~= JsonView::Object(Seq::empty()));
    let mut i: usize = 0;
    while i < params.len()
        invariant
            0 <= i <= params@.len(),
            pv == params@.map_values(|p: (String, String)| (p.0@, p.1@)),
            properties@ == JsonView::Object(schema_properties(pv.subrange(0, i as int))),
            jviews(required@) == pv.subrange(0, i as int).map_values(
                |p: (Seq<char>, Seq<char>)| JsonView::Str(p.0),
            ),
        decreases params@.len() - i,
    {
        let ghost w = pv.subrange(0, i + 1);
        assert(w.drop_last() =~= pv.subrange(0, i as int));
        assert(w.last() == pv[i as int]);
        let json_type = rust_type_to_json_type(params[i].1.as_str());
        let mut entry: Vec<(String, Json)> = Vec::new();
        entry.push((String::from_str("type"), jstr(json_type)));
        proof {
            lemma_object_view(entry);
            assert(entry_views(entry@) =~= seq![("type"@, JsonView::Str(json_type@))]);
        }
        properties.set(params[i].0.as_str(), Json::Object(entry));
        let ghost before = jviews(required@);
        required.push(jstr(params[i].0.as_str()));
        proof {
            lemma_array_view(required);
        }
        assert(jviews(required@) =~= before.push(JsonView::Str(pv[i as int].0)));
        assert(w.map_values(|p: (Seq<char>, Seq<char>)| JsonView::Str(p.0)) =~= pv.subrange(
            0,
            i as int,
        ).map_values(|p: (Seq<char>, Seq<char>)| JsonView::Str(p.0)).push(JsonView::Str(pv[i as int].0)));
        assert(jviews(required@) =~= w.map_values(|p: (Seq<char>, Seq<char>)| JsonView::Str(p.0)));
        i = i + 1;
    }
    assert(pv.subrange(0, pv.len() as int) =~= pv);
    let ghost rv = jviews(required@);
    let ghost propv = properties@;
    assert(rv == pv.map_values(|p: (Seq<char>, Seq<char>)| JsonView::Str(p.0)));
    assert(propv == JsonView::Object(schema_properties(pv)));
    let mut o: Vec<(String, Json)> = Vec::new();
    o.push((String::from_str("properties"), properties));
    o.push((String::from_str("required"), Json::Array(required)));
    o.push((String::from_str("type"), jstr("object")));
    proof {
        lemma_object_view(o);
        lemma_array_view(o@[1].1->Array_0);
        assert(o@[1].1@ == JsonView::Array(rv));
        assert(entry_views(o@) =~= tool_schema(pv)->Object_0);
    }
    Json::Object(o)
}

/// The pieces of `s` between commas, as `str::split(',')` gives them (one
/// empty piece for an empty text).
pub open spec fn comma_segments(s: Seq<char>) -> Seq<Seq<char>>
    decreases s.len(),
{
    if s.len() == 0 {
        seq![Seq::empty()]
    } else if s.last() == ',' {
        comma_segments(s.drop_last()).push(Seq::empty())
    } else {
        let p = comma_segments(s.drop_last());
        p.update(p.len() - 1, p.last().push(s.last()))
    }
}

/// `s` without its leading `c`s.
pub open spec fn strip_leading(s: Seq<char>, c: char) -> Seq<char>
    decreases s.len(),
{
    if s.len() > 0 && s[0] == c {
        strip_leading(s.drop_first(), c)
    } else {
        s
    }
}

/// `s` without its trailing `c`s.
pub open spec fn strip_trailing(s: Seq<char>, c: char) -> Seq<char>
    decreases s.len(),
{
    if s.len() > 0 && s.last() == c {
        strip_trailing(s.drop_last(), c)
    } else {
        s
    }
}

/// Whether `s` begins with `p`.
pub open spec fn begins_with(s: Seq<char>, p: Seq<char>) -> bool {
    s.len() >= p.len() && s.subrange(0, p.len() as int) == p
}

/// The value of an attribute after its key: trimmed, without its leading
/// `=`s, trimmed again, without the quotes at either end.
pub open spec fn attribute_value(rest: Seq<char>) -> Seq<char> {
    strip_trailing(strip_leading(trimmed(strip_leading(trimmed(rest), '=')), '"'), '"')
}

/// The name and description given so far, once `segment` is read: a
/// segment beginning (after trimming) with `name` sets the name, else one
/// beginning with `description` sets the description.
pub open spec fn attribute_step(
    acc: (Option<Seq<char>>, Option<Seq<char>>),
    segment: Seq<char>,
) -> (Option<Seq<char>>, Option<Seq<char>>) {
    let t = trimmed(segment);
    if begins_with(t, "name"@) {
        (Some(attribute_value(t.subrange(4, t.len() as int))), acc.1)
    } else if begins_with(t, "description"@) {
        (acc.0, Some(attribute_value(t.subrange(11, t.len() as int))))
    } else {
        acc
    }
}

/// The name and description that the segments give, a later one replacing
/// an earlier one.
pub open spec fn attributes_of(segments: Seq<Seq<char>>) -> (Option<Seq<char>>, Option<Seq<char>>)
    decreases segments.len(),
{
    if segments.len() == 0 {
        (None, None)
    } else {
        attribute_step(attributes_of(segments.drop_last()), segments.last())
    }
}

/// The view of an optional text.
pub open spec fn opt_text(o: Option<String>) -> Option<Seq<char>> {
    match o {
        Some(t) => Some(t@),
        None => None,
    }
}

/// `s` without its leading `c`s.
fn strip_leading_char(s: &str, c: char) -> (r: &str)
    ensures
        r@ == strip_leading(s@, c),
{
    let n = s.unicode_len();
    let mut i: usize = 0;
    assert(s@.subrange(0, n as int) =~= s@);
    while i < n && s.get_char(i) == c
        invariant
            0 <= i <= n,
            n == s@.len(),
            strip_leading(s@, c) == strip_leading(s@.subrange(i as int, n as int), c),
        decreases n - i,
    {
        assert(s@.subrange(i as int, n as int).drop_first() =~= s@.subrange(i + 1, n as int));
        i = i + 1;
    }
    s.substring_char(i, n)
}

/// `s` without its trailing `c`s.
fn strip_trailing_char(s: &str, c: char) -> (r: &str)
    ensures
        r@ == strip_trailing(s@, c),
{
    let n = s.unicode_len();
    let mut end: usize = n;
    assert(s@.subrange(0, n as int) =~= s@);
    while end > 0 && s.get_char(end - 1) == c
        invariant
            0 <= end <= n,
            n == s@.len(),
            strip_trailing(s@, c) == strip_trailing(s@.subrange(0, end as int), c),
        decreases end,
    {
        assert(s@.subrange(0, end as int).drop_last() =~= s@.subrange(0, end - 1));
        end = end - 1;
    }
    s.substring_char(0, end)
}

/// Whether `s` begins with `p`.
fn begins(s: &str, p: &str) -> (r: bool)
    ensures
        r == begins_with(s@, p@),
{
    let n = s.unicode_len();
    let m = p.unicode_len();
    if n < m {
        false
    } else {
        text_eq(s.substring_char(0, m), p)
    }
}

/// The value of an attribute after its key.
fn value_of(rest: &str) -> (r: String)
    ensures
        r@ == attribute_value(rest@),
{
    let a = strip_leading_char(trim_text(rest), '=');
    let b = strip_leading_char(trim_text(a), '"');
    String::from_str(strip_trailing_char(b, '"'))
}

/// Reads one segment of the attribute.
fn read_segment(segment: &str, name: &mut Option<String>, description: &mut Option<String>)
    ensures
        (opt_text(*final(name)), opt_text(*final(description))) == attribute_step(
            (opt_text(*old(name)), opt_text(*old(description))),
            segment@,
        ),
{
    proof {
        reveal_strlit("name");
        reveal_strlit("description");
    }
    let t = trim_text(segment);
    let n = t.unicode_len();
    if begins(t, "name") {
        *name = Some(value_of(t.substring_char(4, n)));
    } else if begins(t, "description") {
        *description = Some(value_of(t.substring_char(11, n)));
    }
}

/// Reads the arguments of the `tool` attribute, `name = "..."` and
/// `description = "..."` separated by commas: the name and description
/// given, if any.
pub fn parse_tool_attributes(attr: &str) -> (r: (Option<String>, Option<String>))
    ensures
        (opt_text(r.0), opt_text(r.1)) == attributes_of(comma_segments(attr@)),
{
    let n = attr.unicode_len();
    let mut name: Option<String> = None;
    let mut description: Option<String> = None;
    let mut current = String::new();
    let mut start: usize = 0;
    let mut i: usize = 0;
    let ghost mut done: Seq<Seq<char>> = Seq::empty();
    assert(attr@.subrange(0, 0) =~= Seq::<char>::empty());
    assert(comma_segments(Seq::<char>::empty()) == seq![Seq::<char>::empty()]);
    assert(done.push(current@) =~= seq![Seq::<char>::empty()]);
    while i < n
        invariant
            0 <= start <= i <= n,
            n == attr@.len(),
            current@ == attr@.subrange(start as int, i as int),
            comma_segments(attr@.subrange(0, i as int)) == done.push(current@),
            (opt_text(name), opt_text(description)) == attributes_of(done),
        decreases n - i,
    {
        let c = attr.get_char(i);
        let ghost pre = attr@.subrange(0, i as int);
        assert(attr@.subrange(0, i + 1).drop_last() =~= pre);
        assert(attr@.subrange(0, i + 1).last() == c);
        if c == ',' {
            read_segment(current.as_str(), &mut name, &mut description);
            proof {
                assert(done.push(current@).drop_last() =~= done);
                done = done.push(current@);
            }
            current = String::new();
            start = i + 1;
            assert(current@ =~= attr@.subrange(start as int, i + 1));
            assert(comma_segments(attr@.subrange(0, i + 1)) =~= done.push(current@));
        } else {
            let ghost before = current@;
            current = current.concat(attr.substring_char(i, i + 1));
            assert(current@ =~= before.push(c));
            assert(current@ =~= attr@.subrange(start as int, i + 1));
            assert(comma_segments(attr@.subrange(0, i + 1)) =~= done.push(current@));
        }
        i = i + 1;
    }
    read_segment(current.as_str(), &mut name, &mut description);
    assert(attr@.subrange(0, n as int) =~= attr@);
    assert(done.push(current@).drop_last() =~= done);
    (name, description)
}

/// An argument of a generated tool, read from the call's arguments by the
/// type of its parameter.
#[derive(Debug)]
pub enum ToolArgument {
    /// A `String` parameter.
    Text(String),
    /// A `bool` parameter.
    Flag(bool),
    /// An `i64` or `i32` parameter.
    Integer(i64),
    /// An `f64` or `f32` parameter: the number as given.
    Number(JsonNumber),
    /// A parameter of any other type: the value as given, null when
    /// missing, for the type's own deserialization.
    Value(Json),
}

/// Whether `r` is the error of a missing or ill-typed argument `name`.
pub open spec fn missing_argument(r: Result<ToolArgument, ToolError>, name: Seq<char>) -> bool {
    r matches Err(ToolError::InvalidArguments(m)) && m@ == "Missing or invalid argument: "@ + name
}

/// What reading argument `name` of type `ty` from `args` gives: a text, a
/// flag, an integer that fits 64 bits or any number for the parameter
/// types that have one, else the error of a missing or invalid argument;
/// for any other type, the value as given (null when missing).
pub open spec fn argument_read(
    args: JsonView,
    name: Seq<char>,
    ty: Seq<char>,
    r: Result<ToolArgument, ToolError>,
) -> bool {
    let v = field(args, name);
    if ty == "String"@ {
        match str_of(v) {
            Some(t) => r matches Ok(ToolArgument::Text(x)) && x@ == t,
            None => missing_argument(r, name),
        }
    } else if ty == "bool"@ {
        match v {
            Some(JsonView::Bool(b)) => r matches Ok(ToolArgument::Flag(x)) && x == b,
            _ => missing_argument(r, name),
        }
    } else if ty == "i64"@ || ty == "i32"@ {
        match v {
            Some(JsonView::Number(NumberView::PosInt(u))) => if u <= i64::MAX {
                r matches Ok(ToolArgument::Integer(x)) && x == u
            } else {
                missing_argument(r, name)
            },
            Some(JsonView::Number(NumberView::NegInt(i))) => r matches Ok(ToolArgument::Integer(x))
                && x == i,
            _ => missing_argument(r, name),
        }
    } else if ty == "f64"@ || ty == "f32"@ {
        match v {
            Some(JsonView::Number(n)) => r matches Ok(ToolArgument::Number(x)) && x@ == n,
            _ => missing_argument(r, name),
        }
    } else {
        r matches Ok(ToolArgument::Value(x)) && x@ == match v {
            Some(j) => j,
            None => JsonView::Null,
        }
    }
}

/// Reads argument `name` of a generated tool's parameter type `ty` from
/// the call's arguments.
pub fn tool_argument(args: &Json, name: &str, ty: &str) -> (r: Result<ToolArgument, ToolError>)
    ensures
        argument_read(args@, name@, ty@, r),
{
    proof {
        reveal_strlit("String");
        reveal_strlit("bool");
        reveal_strlit("i64");
        reveal_strlit("i32");
        reveal_strlit("f64");
        reveal_strlit("f32");
    }
    let missing = ToolError::InvalidArguments(
        String::from_str("Missing or invalid argument: ").concat(name),
    );
    let v = args.get(name);
    if text_eq(ty, "String") {
        match v {
            Some(j) => match j.as_str() {
                Some(t) => Ok(ToolArgument::Text(String::from_str(t))),
                None => Err(missing),
            },
            None => Err(missing),
        }
    } else if text_eq(ty, "bool") {
        match v {
            Some(Json::Bool(b)) => Ok(ToolArgument::Flag(*b)),
            _ => Err(missing),
        }
    } else if text_eq(ty, "i64") || text_eq(ty, "i32") {
        match v {
            Some(Json::Number(JsonNumber::PosInt(u))) => {
                if *u <= 9223372036854775807u64 {
                    Ok(ToolArgument::Integer(*u as i64))
                } else {
                    Err(missing)
                }
            },
            Some(Json::Number(JsonNumber::NegInt(i))) => Ok(ToolArgument::Integer(*i)),
            _ => Err(missing),
        }
    } else if text_eq(ty, "f64") || text_eq(ty, "f32") {
        match v {
            Some(Json::Number(n)) => Ok(ToolArgument::Number(n.clone())),
            _ => Err(missing),
        }
    } else {
        match v {
            Some(j) => Ok(ToolArgument::Value(j.clone())),
            None => Ok(ToolArgument::Value(Json::Null)),
        }
    }
}

} // verus!
