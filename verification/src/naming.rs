use vstd::prelude::*;
use pinyin::ToPinyin;
use crate::text::{chars_of, owned, string_of_chars};

verus! {

/// What `pinyin` gives for the character `c`: the toneless spelling of its reading
/// (`Pinyin::plain`), or nothing where `c` has no reading in its table.
pub uninterp spec fn pinyin_plain(c: char) -> Option<Seq<char>>;

/// The toneless spelling of `c`: `pinyin`'s `ToPinyin::to_pinyin` on a `char`, then
/// `Pinyin::plain`. The crate reads it from a fixed table, so it depends on `c` alone; the
/// spelling is named, not stated.
#[verifier::external_body]
fn char_pinyin(c: char) -> (r: Option<&'static str>)
    ensures
        match r {
            Some(s) => pinyin_plain(c) == Some(s@),
            None => pinyin_plain(c) is None,
        },
{
    match c.to_pinyin() {
        Some(p) => Some(p.plain()),
        None => None,
    }
}

/// The spellings of the characters of `s` that have one, joined.
pub open spec fn pinyin_joined(s: Seq<char>) -> Seq<char>
    decreases s.len(),
{
    if s.len() == 0 {
        Seq::empty()
    } else {
        pinyin_joined(s.drop_last()) + match pinyin_plain(s.last()) {
            Some(p) => p,
            None => Seq::empty(),
        }
    }
}

/// The pinyin name of `s`: the joined spellings, without a trailing space.
pub open spec fn pinyin_name_of(s: Seq<char>) -> Seq<char> {
    let j = pinyin_joined(s);
    if j.len() > 0 && j.last() == ' ' {
        j.drop_last()
    } else {
        j
    }
}

/// The ASCII upper case of `c`; other characters stay as they are.
pub open spec fn ascii_upper(c: char) -> char {
    if 'a' <= c && c <= 'z' {
        ((c as u32) - 32) as char
    } else {
        c
    }
}

/// The pinyin spelling of `hans`: the toneless readings of its characters joined, with the
/// characters that have none left out.
pub fn pinyin_name(hans: &str) -> (r: String)
    ensures
        r@ == pinyin_name_of(hans@),
{
    let cs = chars_of(hans);
    let mut out: Vec<char> = Vec::new();
    let mut i: usize = 0;
    while i < cs.len()
        invariant
            i <= cs@.len(),
            cs@ == hans@,
            out@ == pinyin_joined(cs@.take(i as int)),
        decreases cs@.len() - i,
    {
        assert(cs@.take(i + 1).drop_last() =~= cs@.take(i as int));
        match char_pinyin(cs[i]) {
            Some(p) => {
                let pc = chars_of(p);
                let mut j: usize = 0;
                let ghost before = out@;
                while j < pc.len()
                    invariant
                        j <= pc@.len(),
                        out@ == before + pc@.take(j as int),
                    decreases pc@.len() - j,
                {
                    out.push(pc[j]);
                    assert(pc@.take(j + 1) =~= pc@.take(j as int).push(pc@[j as int]));
                    j += 1;
                }
                assert(pc@.take(pc@.len() as int) =~= pc@);
            },
            None => {
                assert(out@ =~= out@ + Seq::<char>::empty());
            },
        }
        i += 1;
    }
    assert(cs@.take(cs@.len() as int) =~= cs@);
    if out.len() > 0 && out[out.len() - 1] == ' ' {
        out.pop();
    }
    string_of_chars(&out)
}

/// `name` with its first character, which must be ASCII, in upper case.
pub fn capitalize_first(name: &str) -> (r: String)
    requires
        name@.len() > 0,
        (name@[0] as u32) < 128,
    ensures
        r@ == seq![ascii_upper(name@[0])] + name@.drop_first(),
{
    let mut cs = chars_of(name);
    let c = cs[0];
    let up = if 'a' <= c && c <= 'z' {
        ((c as u8) - 32) as char
    } else {
        c
    };
    cs.set(0, up);
    assert(cs@ =~= seq![ascii_upper(name@[0])] + name@.drop_first());
    string_of_chars(&cs)
}

/// The name a page's component gets from the page name: its pinyin spelling (the page name
/// itself where that is empty) with the first character in upper case. None where that name
/// is empty or does not begin with an ASCII character, where the generator cannot go on.
pub open spec fn component_of(page_name: Seq<char>) -> Option<Seq<char>> {
    let n = if pinyin_name_of(page_name).len() == 0 {
        page_name
    } else {
        pinyin_name_of(page_name)
    };
    if n.len() > 0 && (n[0] as u32) < 128 {
        Some(seq![ascii_upper(n[0])] + n.drop_first())
    } else {
        None
    }
}

/// The name a page's component gets from the page name, as `component_of` says.
pub fn component_name(page_name: &str) -> (r: Option<String>)
    ensures
        match r {
            Some(c) => component_of(page_name@) == Some(c@),
            None => component_of(page_name@) is None,
        },
{
    let mut name = pinyin_name(page_name);
    if name.as_str().is_empty() {
        name = owned(page_name);
    }
    let cs = chars_of(name.as_str());
    if cs.len() > 0 && (cs[0] as u32) < 128 {
        Some(capitalize_first(name.as_str()))
    } else {
        None
    }
}

} // verus!
