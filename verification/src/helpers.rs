use vstd::prelude::*;
use crate::text::{chars_of, concat3, owned, string_of_chars};

verus! {

/// Whether `c` has the Unicode `Uppercase` property, as `char::is_uppercase` answers it.
pub uninterp spec fn unicode_uppercase(c: char) -> bool;

/// `char::is_uppercase` from std: whether `c` has the Unicode `Uppercase` property. Among
/// ASCII characters exactly `A` to `Z` have it.
#[verifier::external_body]
fn is_uppercase(c: char) -> (b: bool)
    ensures
        b == unicode_uppercase(c),
        (c as u32) < 128 ==> (b == ('A' <= c && c <= 'Z')),
{
    c.is_uppercase()
}

/// The ASCII lower case of `c`; other characters stay as they are.
pub open spec fn ascii_lower(c: char) -> char {
    if 'A' <= c && c <= 'Z' {
        ((c as u32) + 32) as char
    } else {
        c
    }
}

/// The CSS name of a camel-case style key: a dash before every upper-case character but
/// the first, and ASCII letters in lower case (`backgroundColor` gives `background-color`).
pub open spec fn css_name(key: Seq<char>) -> Seq<char>
    decreases key.len(),
{
    if key.len() == 0 {
        Seq::empty()
    } else {
        let c = key.last();
        let i = key.len() - 1;
        css_name(key.drop_last()) + if unicode_uppercase(c) && i > 0 {
            seq!['-', ascii_lower(c)]
        } else {
            seq![ascii_lower(c)]
        }
    }
}

/// `parts` joined with `sep` between them.
pub open spec fn joined(parts: Seq<Seq<char>>, sep: Seq<char>) -> Seq<char>
    decreases parts.len(),
{
    if parts.len() == 0 {
        Seq::empty()
    } else if parts.len() == 1 {
        parts[0]
    } else {
        joined(parts.drop_last(), sep) + sep + parts.last()
    }
}

/// The declarations `name: value` of a style, in the order given.
pub open spec fn style_parts(pairs: Seq<(String, String)>) -> Seq<Seq<char>> {
    Seq::new(pairs.len(), |i: int| css_name(pairs[i].0@) + ": "@ + pairs[i].1@)
}

/// The CSS name of a camel-case style key.
pub fn css_property_name(key: &str) -> (r: String)
    ensures
        r@ == css_name(key@),
{
    let cs = chars_of(key);
    let mut out: Vec<char> = Vec::new();
    let mut i: usize = 0;
    while i < cs.len()
        invariant
            i <= cs@.len(),
            cs@ == key@,
            out@ == css_name(cs@.take(i as int)),
        decreases cs@.len() - i,
    {
        let c = cs[i];
        assert(cs@.take(i + 1).drop_last() =~= cs@.take(i as int));
        assert(cs@.take(i + 1).last() == c);
        let lower = if 'A' <= c && c <= 'Z' {
            ((c as u8) + 32) as char
        } else {
            c
        };
        if is_uppercase(c) && i > 0 {
            out.push('-');
        }
        out.push(lower);
        proof {
            let prev = css_name(cs@.take(i as int));
            if unicode_uppercase(c) && i > 0 {
                assert(out@ =~= prev + seq!['-', ascii_lower(c)]);
            } else {
                assert(out@ =~= prev + seq![ascii_lower(c)]);
            }
        }
        i += 1;
    }
    assert(cs@.take(cs@.len() as int) =~= cs@);
    string_of_chars(&out)
}

/// The inline style of a component: its declarations `name: value`, each key in CSS form,
/// joined by `; `, in the order of `pairs`.
pub fn style_text(pairs: &Vec<(String, String)>) -> (r: String)
    ensures
        r@ == joined(style_parts(pairs@), "; "@),
{
    let mut out = String::new();
    let mut i: usize = 0;
    while i < pairs.len()
        invariant
            i <= pairs@.len(),
            out@ == joined(style_parts(pairs@).take(i as int), "; "@),
        decreases pairs@.len() - i,
    {
        let name = css_property_name(pairs[i].0.as_str());
        let decl = concat3(name.as_str(), ": ", pairs[i].1.as_str());
        let ghost parts = style_parts(pairs@);
        assert(parts.take(i + 1).drop_last() =~= parts.take(i as int));
        assert(parts.take(i + 1).last() == decl@);
        if i > 0 {
            out.append("; ");
        }
        out.append(decl.as_str());
        i += 1;
    }
    assert(style_parts(pairs@).take(pairs@.len() as int) =~= style_parts(pairs@));
    out
}

/// A property value of a component as written into a template: a string, or any other JSON
/// value already written as JSON text.
#[derive(Debug)]
pub enum PropValue {
    Str(String),
    Json(String),
}

/// The text of a property value: a string in double quotes (as it is, not escaped), any
/// other value as its JSON text.
pub open spec fn prop_value_text(v: PropValue) -> Seq<char> {
    match v {
        PropValue::Str(s) => "\""@ + s@ + "\""@,
        PropValue::Json(t) => t@,
    }
}

/// The entries `key: value` of an object literal.
pub open spec fn prop_parts(pairs: Seq<(String, PropValue)>) -> Seq<Seq<char>> {
    Seq::new(pairs.len(), |i: int| pairs[i].0@ + ": "@ + prop_value_text(pairs[i].1))
}

/// The object literal of a component's properties, keys unquoted: `{key: value, ...}` with
/// the entries in the order of `pairs`. A value that is no object has no entries and gives
/// `{}`.
pub fn props_text(pairs: &Vec<(String, PropValue)>) -> (r: String)
    ensures
        r@ == "{"@ + joined(prop_parts(pairs@), ", "@) + "}"@,
{
    let mut out = owned("{");
    let mut i: usize = 0;
    while i < pairs.len()
        invariant
            i <= pairs@.len(),
            out@ == "{"@ + joined(prop_parts(pairs@).take(i as int), ", "@),
        decreases pairs@.len() - i,
    {
        let value = match &pairs[i].1 {
            PropValue::Str(s) => concat3("\"", s.as_str(), "\""),
            PropValue::Json(t) => t.clone(),
        };
        let entry = concat3(pairs[i].0.as_str(), ": ", value.as_str());
        let ghost parts = prop_parts(pairs@);
        assert(parts.take(i + 1).drop_last() =~= parts.take(i as int));
        assert(parts.take(i + 1).last() == entry@);
        if i > 0 {
            out.append(", ");
        }
        out.append(entry.as_str());
        i += 1;
    }
    assert(prop_parts(pairs@).take(pairs@.len() as int) =~= prop_parts(pairs@));
    out.append("}");
    out
}

} // verus!
