//! A field-name-keyed textual encoding of the portfolio records, with a
//! decoder for the same format, and the proof that decoding an encoding
//! yields the records back.
//!
//! The format is the JSON shape of the records: one object per record,
//! fields in declaration order, an absent `cover` written as an absent
//! field rather than a null, strings with `"` and `\` escaped by a
//! backslash. The decoder is permissive about whitespace between tokens
//! and about a missing `cover` field; URL text is carried as it stands,
//! parsing it being the URL collaborator's concern.

use vstd::prelude::*;

use crate::urls::Url;
use crate::{Link, LinkView, Project, ProjectView, Projects};

verus! {

/// A character escaped as string content: `"` and `\` get a backslash in
/// front, everything else stands for itself.
pub open spec fn esc_char(c: char) -> Seq<char> {
    if c == '"' || c == '\\' {
        seq!['\\', c]
    } else {
        seq![c]
    }
}

/// String content with every character escaped.
pub open spec fn esc(s: Seq<char>) -> Seq<char>
    decreases s.len(),
{
    if s.len() == 0 {
        Seq::empty()
    } else {
        esc_char(s[0]) + esc(s.skip(1))
    }
}

/// A string: quote, escaped content, quote.
pub open spec fn enc_str(s: Seq<char>) -> Seq<char> {
    seq!['"'] + esc(s) + seq!['"']
}

/// A link object: its name and its URL text, keyed by field name.
pub open spec fn enc_link(l: LinkView) -> Seq<char> {
    seq!['{'] + "\"name\""@ + seq![':'] + enc_str(l.name) + seq![','] + "\"link\""@ + seq![':']
        + enc_str(l.url) + seq!['}']
}

/// One or more strings joined by commas.
pub open spec fn enc_strings(ts: Seq<Seq<char>>) -> Seq<char>
    decreases ts.len(),
{
    if ts.len() == 0 {
        Seq::empty()
    } else if ts.len() == 1 {
        enc_str(ts[0])
    } else {
        enc_str(ts[0]) + seq![','] + enc_strings(ts.skip(1))
    }
}

/// One or more link objects joined by commas.
pub open spec fn enc_link_list(ls: Seq<LinkView>) -> Seq<char>
    decreases ls.len(),
{
    if ls.len() == 0 {
        Seq::empty()
    } else if ls.len() == 1 {
        enc_link(ls[0])
    } else {
        enc_link(ls[0]) + seq![','] + enc_link_list(ls.skip(1))
    }
}

/// The text of a project object from its `tags` key to its closing brace.
pub open spec fn enc_project_tail(tags: Seq<Seq<char>>, links: Seq<LinkView>) -> Seq<char> {
    "\"tags\""@ + seq![':'] + seq!['['] + enc_strings(tags) + seq![']'] + seq![','] + "\"links\""@
        + seq![':'] + seq!['['] + enc_link_list(links) + seq![']'] + seq!['}']
}

/// The cover field's text: nothing at all when the cover is absent,
/// otherwise the keyed URL string and the comma that follows it.
pub open spec fn enc_cover(cover: Option<Seq<char>>) -> Seq<char> {
    match cover {
        Some(u) => "\"cover\""@ + seq![':'] + enc_str(u) + seq![','],
        None => Seq::<char>::empty(),
    }
}

/// A project object: fields in declaration order, the cover only when
/// it is present.
pub open spec fn enc_project(p: ProjectView) -> Seq<char> {
    seq!['{'] + "\"title\""@ + seq![':'] + enc_str(p.title) + seq![','] + "\"description\""@
        + seq![':'] + enc_str(p.description) + seq![','] + enc_cover(p.cover)
        + enc_project_tail(p.tags, p.links)
}

/// Zero or more project objects joined by commas.
pub open spec fn enc_project_list(ps: Seq<ProjectView>) -> Seq<char>
    decreases ps.len(),
{
    if ps.len() == 0 {
        Seq::empty()
    } else if ps.len() == 1 {
        enc_project(ps[0])
    } else {
        enc_project(ps[0]) + seq![','] + enc_project_list(ps.skip(1))
    }
}

/// The whole portfolio: one object holding the project array.
pub open spec fn enc_projects(ps: Seq<ProjectView>) -> Seq<char> {
    seq!['{'] + "\"projects\""@ + seq![':'] + seq!['['] + enc_project_list(ps) + seq![']']
        + seq!['}']
}

/// A whitespace character between tokens.
pub open spec fn is_ws(c: char) -> bool {
    c == ' ' || c == '\n' || c == '\t' || c == '\r'
}

/// The input with its leading whitespace dropped.
pub open spec fn skip_ws(s: Seq<char>) -> Seq<char>
    decreases s.len(),
{
    if s.len() > 0 && is_ws(s[0]) {
        skip_ws(s.skip(1))
    } else {
        s
    }
}

/// One expected character, leading whitespace allowed: what follows it,
/// or nothing when the next character is another one.
pub open spec fn parse_char(s: Seq<char>, c: char) -> Option<Seq<char>> {
    let t = skip_ws(s);
    if t.len() > 0 && t[0] == c {
        Some(t.skip(1))
    } else {
        None
    }
}

/// An expected literal, leading whitespace allowed.
pub open spec fn parse_lit(s: Seq<char>, lit: Seq<char>) -> Option<Seq<char>> {
    let t = skip_ws(s);
    if t.len() >= lit.len() && t.subrange(0, lit.len() as int) =~= lit {
        Some(t.skip(lit.len() as int))
    } else {
        None
    }
}

/// String content up to and beyond the closing quote: a backslash takes
/// the next character literally, anything else stands for itself.
pub open spec fn parse_str_body(s: Seq<char>) -> Option<(Seq<char>, Seq<char>)>
    decreases s.len(),
{
    if s.len() == 0 {
        None
    } else if s[0] == '"' {
        Some((Seq::empty(), s.skip(1)))
    } else if s[0] == '\\' {
        if s.len() < 2 {
            None
        } else {
            match parse_str_body(s.skip(2)) {
                Some((content, rest)) => Some((seq![s[1]] + content, rest)),
                None => None,
            }
        }
    } else {
        match parse_str_body(s.skip(1)) {
            Some((content, rest)) => Some((seq![s[0]] + content, rest)),
            None => None,
        }
    }
}

/// A whole string, leading whitespace allowed.
pub open spec fn parse_str(s: Seq<char>) -> Option<(Seq<char>, Seq<char>)> {
    let t = skip_ws(s);
    if t.len() > 0 && t[0] == '"' {
        parse_str_body(t.skip(1))
    } else {
        None
    }
}

/// One or more comma-separated strings followed by the closing bracket.
pub open spec fn parse_strings(s: Seq<char>) -> Option<(Seq<Seq<char>>, Seq<char>)>
    decreases s.len(),
{
    match parse_str(s) {
        Some((t, r)) => match parse_char(r, ',') {
            Some(r2) => if r2.len() < s.len() {
                match parse_strings(r2) {
                    Some((ts, r3)) => Some((seq![t] + ts, r3)),
                    None => None,
                }
            } else {
                None
            },
            None => match parse_char(r, ']') {
                Some(r2) => Some((seq![t], r2)),
                None => None,
            },
        },
        None => None,
    }
}

/// A whole string array, empty or not.
pub open spec fn parse_str_array(s: Seq<char>) -> Option<(Seq<Seq<char>>, Seq<char>)> {
    match parse_char(s, '[') {
        Some(r) => match parse_char(r, ']') {
            Some(r2) => Some((Seq::empty(), r2)),
            None => parse_strings(r),
        },
        None => None,
    }
}

/// One link object.
pub open spec fn parse_link(s: Seq<char>) -> Option<(LinkView, Seq<char>)> {
    match parse_char(s, '{') {
        Some(s1) => match parse_lit(s1, "\"name\""@) {
            Some(s2) => match parse_char(s2, ':') {
                Some(s3) => match parse_str(s3) {
                    Some((name, s4)) => match parse_char(s4, ',') {
                        Some(s5) => match parse_lit(s5, "\"link\""@) {
                            Some(s6) => match parse_char(s6, ':') {
                                Some(s7) => match parse_str(s7) {
                                    Some((url, s8)) => match parse_char(s8, '}') {
                                        Some(s9) => Some((LinkView { name, url }, s9)),
                                        None => None,
                                    },
                                    None => None,
                                },
                                None => None,
                            },
                            None => None,
                        },
                        None => None,
                    },
                    None => None,
                },
                None => None,
            },
            None => None,
        },
        None => None,
    }
}

/// One or more comma-separated link objects followed by the closing
/// bracket.
pub open spec fn parse_link_items(s: Seq<char>) -> Option<(Seq<LinkView>, Seq<char>)>
    decreases s.len(),
{
    match parse_link(s) {
        Some((l, r)) => match parse_char(r, ',') {
            Some(r2) => if r2.len() < s.len() {
                match parse_link_items(r2) {
                    Some((ls, r3)) => Some((seq![l] + ls, r3)),
                    None => None,
                }
            } else {
                None
            },
            None => match parse_char(r, ']') {
                Some(r2) => Some((seq![l], r2)),
                None => None,
            },
        },
        None => None,
    }
}

/// A whole link array, empty or not.
pub open spec fn parse_link_array(s: Seq<char>) -> Option<(Seq<LinkView>, Seq<char>)> {
    match parse_char(s, '[') {
        Some(r) => match parse_char(r, ']') {
            Some(r2) => Some((Seq::empty(), r2)),
            None => parse_link_items(r),
        },
        None => None,
    }
}

/// The tail of a project object from its `tags` key on, given the title,
/// description and cover already read.
pub open spec fn parse_project_tail(
    s: Seq<char>,
    title: Seq<char>,
    description: Seq<char>,
    cover: Option<Seq<char>>,
) -> Option<(ProjectView, Seq<char>)> {
    match parse_lit(s, "\"tags\""@) {
        Some(s1) => match parse_char(s1, ':') {
            Some(s2) => match parse_str_array(s2) {
                Some((tags, s3)) => match parse_char(s3, ',') {
                    Some(s4) => match parse_lit(s4, "\"links\""@) {
                        Some(s5) => match parse_char(s5, ':') {
                            Some(s6) => match parse_link_array(s6) {
                                Some((links, s7)) => match parse_char(s7, '}') {
                                    Some(s8) => Some(
                                        (
                                            ProjectView {
                                                title,
                                                description,
                                                cover,
                                                tags,
                                                links,
                                            },
                                            s8,
                                        ),
                                    ),
                                    None => None,
                                },
                                None => None,
                            },
                            None => None,
                        },
                        None => None,
                    },
                    None => None,
                },
                None => None,
            },
            None => None,
        },
        None => None,
    }
}

/// The optional cover field: the keyed URL string and its trailing
/// comma when the next key is `cover`, nothing otherwise.
pub open spec fn parse_opt_cover(s: Seq<char>) -> Option<(Option<Seq<char>>, Seq<char>)> {
    match parse_lit(s, "\"cover\""@) {
        Some(s1) => match parse_char(s1, ':') {
            Some(s2) => match parse_str(s2) {
                Some((u, s3)) => match parse_char(s3, ',') {
                    Some(s4) => Some((Some(u), s4)),
                    None => None,
                },
                None => None,
            },
            None => None,
        },
        None => Some((None, s)),
    }
}

/// One project object: fields in declaration order, the cover optional.
pub open spec fn parse_project(s: Seq<char>) -> Option<(ProjectView, Seq<char>)> {
    match parse_char(s, '{') {
        Some(s1) => match parse_lit(s1, "\"title\""@) {
            Some(s2) => match parse_char(s2, ':') {
                Some(s3) => match parse_str(s3) {
                    Some((title, s4)) => match parse_char(s4, ',') {
                        Some(s5) => match parse_lit(s5, "\"description\""@) {
                            Some(s6) => match parse_char(s6, ':') {
                                Some(s7) => match parse_str(s7) {
                                    Some((description, s8)) => match parse_char(s8, ',') {
                                        Some(s9) => match parse_opt_cover(s9) {
                                            Some((cover, s10)) => parse_project_tail(
                                                s10,
                                                title,
                                                description,
                                                cover,
                                            ),
                                            None => None,
                                        },
                                        None => None,
                                    },
                                    None => None,
                                },
                                None => None,
                            },
                            None => None,
                        },
                        None => None,
                    },
                    None => None,
                },
                None => None,
            },
            None => None,
        },
        None => None,
    }
}

/// One or more comma-separated project objects followed by the closing
/// bracket.
pub open spec fn parse_project_items(s: Seq<char>) -> Option<(Seq<ProjectView>, Seq<char>)>
    decreases s.len(),
{
    match parse_project(s) {
        Some((p, r)) => match parse_char(r, ',') {
            Some(r2) => if r2.len() < s.len() {
                match parse_project_items(r2) {
                    Some((ps, r3)) => Some((seq![p] + ps, r3)),
                    None => None,
                }
            } else {
                None
            },
            None => match parse_char(r, ']') {
                Some(r2) => Some((seq![p], r2)),
                None => None,
            },
        },
        None => None,
    }
}

/// The whole portfolio text: the projects object, then at most trailing
/// whitespace.
pub open spec fn parse_projects_text(s: Seq<char>) -> Option<Seq<ProjectView>> {
    match parse_char(s, '{') {
        Some(s1) => match parse_lit(s1, "\"projects\""@) {
            Some(s2) => match parse_char(s2, ':') {
                Some(s3) => match parse_char(s3, '[') {
                    Some(s4) => {
                        let arr = match parse_char(s4, ']') {
                            Some(r) => Some((Seq::<ProjectView>::empty(), r)),
                            None => parse_project_items(s4),
                        };
                        match arr {
                            Some((ps, s5)) => match parse_char(s5, '}') {
                                Some(s6) => if skip_ws(s6).len() == 0 {
                                    Some(ps)
                                } else {
                                    None
                                },
                                None => None,
                            },
                            None => None,
                        }
                    },
                    None => None,
                },
                None => None,
            },
            None => None,
        },
        None => None,
    }
}

proof fn lemma_parse_char_exact(c: char, rest: Seq<char>)
    requires
        !is_ws(c),
    ensures
        parse_char(seq![c] + rest, c) == Some(rest),
{
    let s = seq![c] + rest;
    assert(s.len() > 0 && s[0] == c);
    assert(skip_ws(s) == s);
    assert(s.skip(1) =~= rest);
}

proof fn lemma_parse_lit_exact(lit: Seq<char>, rest: Seq<char>)
    requires
        lit.len() > 0,
        !is_ws(lit[0]),
    ensures
        parse_lit(lit + rest, lit) == Some(rest),
{
    let s = lit + rest;
    assert(s[0] == lit[0]);
    assert(skip_ws(s) == s);
    assert(s.subrange(0, lit.len() as int) =~= lit);
    assert(s.skip(lit.len() as int) =~= rest);
}

proof fn lemma_parse_str_body_rt(x: Seq<char>, rest: Seq<char>)
    ensures
        parse_str_body(esc(x) + seq!['"'] + rest) == Some((x, rest)),
    decreases x.len(),
{
    let s = esc(x) + seq!['"'] + rest;
    if x.len() == 0 {
        assert(s =~= seq!['"'] + rest);
        assert(s[0] == '"');
        assert(s.skip(1) =~= rest);
        assert(x =~= Seq::<char>::empty());
    } else {
        let c = x[0];
        let tail = esc(x.skip(1)) + seq!['"'] + rest;
        lemma_parse_str_body_rt(x.skip(1), rest);
        if c == '"' || c == '\\' {
            assert(s =~= seq!['\\', c] + tail);
            assert(s[0] == '\\' && s[1] == c);
            assert(s.len() >= 2);
            assert(s.skip(2) =~= tail);
            assert(seq![c] + x.skip(1) =~= x);
        } else {
            assert(s =~= seq![c] + tail);
            assert(s[0] == c);
            assert(s.skip(1) =~= tail);
            assert(seq![c] + x.skip(1) =~= x);
        }
    }
}

proof fn lemma_parse_str_rt(x: Seq<char>, rest: Seq<char>)
    ensures
        parse_str(enc_str(x) + rest) == Some((x, rest)),
{
    let s = enc_str(x) + rest;
    assert(s =~= seq!['"'] + (esc(x) + seq!['"'] + rest));
    assert(s.len() > 0 && s[0] == '"');
    assert(skip_ws(s) == s);
    assert(s.skip(1) =~= esc(x) + seq!['"'] + rest);
    lemma_parse_str_body_rt(x, rest);
}

proof fn lemma_parse_strings_rt(ts: Seq<Seq<char>>, rest: Seq<char>)
    requires
        ts.len() > 0,
    ensures
        parse_strings(enc_strings(ts) + seq![']'] + rest) == Some((ts, rest)),
    decreases ts.len(),
{
    let s = enc_strings(ts) + seq![']'] + rest;
    if ts.len() == 1 {
        let close = seq![']'] + rest;
        assert(s =~= enc_str(ts[0]) + close);
        lemma_parse_str_rt(ts[0], close);
        assert(close[0] == ']' && !is_ws(']'));
        assert(skip_ws(close) == close);
        assert(parse_char(close, ',') is None);
        lemma_parse_char_exact(']', rest);
        assert(seq![']'] + rest == close);
        assert(seq![ts[0]] =~= ts);
    } else {
        let r2 = enc_strings(ts.skip(1)) + seq![']'] + rest;
        let after = seq![','] + r2;
        assert(s =~= enc_str(ts[0]) + after);
        lemma_parse_str_rt(ts[0], after);
        lemma_parse_char_exact(',', r2);
        assert(seq![','] + r2 == after);
        assert(r2.len() < s.len());
        lemma_parse_strings_rt(ts.skip(1), rest);
        assert(seq![ts[0]] + ts.skip(1) =~= ts);
    }
}

proof fn lemma_parse_str_array_rt(ts: Seq<Seq<char>>, rest: Seq<char>)
    ensures
        parse_str_array(seq!['['] + enc_strings(ts) + seq![']'] + rest) == Some((ts, rest)),
{
    let s = seq!['['] + enc_strings(ts) + seq![']'] + rest;
    let r = enc_strings(ts) + seq![']'] + rest;
    assert(s =~= seq!['['] + r);
    lemma_parse_char_exact('[', r);
    if ts.len() == 0 {
        assert(r =~= seq![']'] + rest);
        lemma_parse_char_exact(']', rest);
        assert(seq![']'] + rest == r);
        assert(Seq::<Seq<char>>::empty() =~= ts);
    } else {
        assert(enc_strings(ts).len() > 0 && enc_strings(ts)[0] == '"');
        assert(r[0] == '"');
        assert(skip_ws(r) == r);
        assert(parse_char(r, ']') is None);
        lemma_parse_strings_rt(ts, rest);
    }
}

proof fn lemma_parse_link_rt(l: LinkView, rest: Seq<char>)
    ensures
        parse_link(enc_link(l) + rest) == Some((l, rest)),
{
    reveal_strlit("\"name\"");
    reveal_strlit("\"link\"");
    let s = enc_link(l) + rest;
    let r8 = seq!['}'] + rest;
    let r7 = enc_str(l.url) + r8;
    let r6 = seq![':'] + r7;
    let r5 = "\"link\""@ + r6;
    let r4 = seq![','] + r5;
    let r3 = enc_str(l.name) + r4;
    let r2 = seq![':'] + r3;
    let r1 = "\"name\""@ + r2;
    assert(s =~= seq!['{'] + r1);
    lemma_parse_char_exact('{', r1);
    assert(seq!['{'] + r1 == s);
    lemma_parse_lit_exact("\"name\""@, r2);
    lemma_parse_char_exact(':', r3);
    lemma_parse_str_rt(l.name, r4);
    lemma_parse_char_exact(',', r5);
    lemma_parse_lit_exact("\"link\""@, r6);
    lemma_parse_char_exact(':', r7);
    lemma_parse_str_rt(l.url, r8);
    lemma_parse_char_exact('}', rest);
    assert(LinkView { name: l.name, url: l.url } =~= l);
}

proof fn lemma_parse_link_items_rt(ls: Seq<LinkView>, rest: Seq<char>)
    requires
        ls.len() > 0,
    ensures
        parse_link_items(enc_link_list(ls) + seq![']'] + rest) == Some((ls, rest)),
    decreases ls.len(),
{
    let s = enc_link_list(ls) + seq![']'] + rest;
    if ls.len() == 1 {
        let close = seq![']'] + rest;
        assert(s =~= enc_link(ls[0]) + close);
        lemma_parse_link_rt(ls[0], close);
        assert(close[0] == ']');
        assert(skip_ws(close) == close);
        assert(parse_char(close, ',') is None);
        lemma_parse_char_exact(']', rest);
        assert(seq![']'] + rest == close);
        assert(seq![ls[0]] =~= ls);
    } else {
        let r2 = enc_link_list(ls.skip(1)) + seq![']'] + rest;
        let after = seq![','] + r2;
        assert(s =~= enc_link(ls[0]) + after);
        lemma_parse_link_rt(ls[0], after);
        lemma_parse_char_exact(',', r2);
        assert(seq![','] + r2 == after);
        assert(r2.len() < s.len());
        lemma_parse_link_items_rt(ls.skip(1), rest);
        assert(seq![ls[0]] + ls.skip(1) =~= ls);
    }
}

proof fn lemma_parse_link_array_rt(ls: Seq<LinkView>, rest: Seq<char>)
    ensures
        parse_link_array(seq!['['] + enc_link_list(ls) + seq![']'] + rest) == Some((ls, rest)),
{
    let s = seq!['['] + enc_link_list(ls) + seq![']'] + rest;
    let r = enc_link_list(ls) + seq![']'] + rest;
    assert(s =~= seq!['['] + r);
    lemma_parse_char_exact('[', r);
    if ls.len() == 0 {
        assert(r =~= seq![']'] + rest);
        lemma_parse_char_exact(']', rest);
        assert(seq![']'] + rest == r);
        assert(Seq::<LinkView>::empty() =~= ls);
    } else {
        assert(enc_link_list(ls).len() > 0 && enc_link_list(ls)[0] == '{');
        assert(r[0] == '{');
        assert(skip_ws(r) == r);
        assert(parse_char(r, ']') is None);
        lemma_parse_link_items_rt(ls, rest);
    }
}

#[verifier::rlimit(100)]
proof fn lemma_parse_project_tail_rt(
    title: Seq<char>,
    description: Seq<char>,
    cover: Option<Seq<char>>,
    tags: Seq<Seq<char>>,
    links: Seq<LinkView>,
    rest: Seq<char>,
)
    ensures
        parse_project_tail(enc_project_tail(tags, links) + rest, title, description, cover)
            == Some((ProjectView { title, description, cover, tags, links }, rest)),
{
    reveal_strlit("\"tags\"");
    reveal_strlit("\"links\"");
    let s = enc_project_tail(tags, links) + rest;
    let r8 = seq!['}'] + rest;
    let r7 = enc_link_list(links) + (seq![']'] + r8);
    let r6 = seq!['['] + r7;
    let r5 = seq![':'] + r6;
    let r4 = "\"links\""@ + r5;
    let r3 = seq![','] + r4;
    let r2 = enc_strings(tags) + (seq![']'] + r3);
    let r1 = seq!['['] + r2;
    let r0 = seq![':'] + r1;
    let rk = "\"tags\""@ + r0;
    assert(s =~= rk);
    lemma_parse_lit_exact("\"tags\""@, r0);
    assert(parse_lit(s, "\"tags\""@) == Some(r0));
    lemma_parse_char_exact(':', r1);
    assert(r1 =~= seq!['['] + enc_strings(tags) + seq![']'] + r3);
    lemma_parse_str_array_rt(tags, r3);
    assert(seq!['['] + enc_strings(tags) + seq![']'] + r3 == r1);
    lemma_parse_char_exact(',', r4);
    lemma_parse_lit_exact("\"links\""@, r5);
    lemma_parse_char_exact(':', r6);
    assert(r6 =~= seq!['['] + enc_link_list(links) + seq![']'] + r8);
    lemma_parse_link_array_rt(links, r8);
    assert(seq!['['] + enc_link_list(links) + seq![']'] + r8 == r6);
    lemma_parse_char_exact('}', rest);
}

proof fn lemma_parse_opt_cover_rt(cover: Option<Seq<char>>, after: Seq<char>)
    requires
        after.len() >= 2,
        after[0] == '"',
        after[1] == 't',
    ensures
        parse_opt_cover(enc_cover(cover) + after) == Some((cover, after)),
{
    reveal_strlit("\"cover\"");
    let s = enc_cover(cover) + after;
    match cover {
        Some(u) => {
            let c3 = seq![','] + after;
            let c2 = enc_str(u) + c3;
            let c1 = seq![':'] + c2;
            assert(s =~= "\"cover\""@ + c1);
            lemma_parse_lit_exact("\"cover\""@, c1);
            assert("\"cover\""@ + c1 == s);
            lemma_parse_char_exact(':', c2);
            lemma_parse_str_rt(u, c3);
            lemma_parse_char_exact(',', after);
            assert(seq![','] + after == c3);
        },
        None => {
            assert(s =~= after);
            assert(skip_ws(s) == s);
            assert(s[1] == 't' && "\"cover\""@[1] == 'c');
            if s.len() >= "\"cover\""@.len() {
                assert(s.subrange(0, "\"cover\""@.len() as int)[1] == 't');
                assert(!(s.subrange(0, "\"cover\""@.len() as int) =~= "\"cover\""@));
            }
            assert(parse_lit(s, "\"cover\""@) is None);
        },
    }
}

#[verifier::rlimit(100)]
proof fn lemma_parse_project_rt(p: ProjectView, rest: Seq<char>)
    ensures
        parse_project(enc_project(p) + rest) == Some((p, rest)),
{
    reveal_strlit("\"title\"");
    reveal_strlit("\"description\"");
    reveal_strlit("\"tags\"");
    let s = enc_project(p) + rest;
    let tail = enc_project_tail(p.tags, p.links) + rest;
    let cov = enc_cover(p.cover) + tail;
    let r4 = enc_str(p.description) + (seq![','] + cov);
    let r3 = seq![':'] + r4;
    let r2 = "\"description\""@ + r3;
    let r1 = seq![','] + r2;
    let r0 = enc_str(p.title) + r1;
    let rc = seq![':'] + r0;
    let rk = "\"title\""@ + rc;
    assert(s =~= seq!['{'] + rk);
    lemma_parse_char_exact('{', rk);
    assert(seq!['{'] + rk == s);
    lemma_parse_lit_exact("\"title\""@, rc);
    lemma_parse_char_exact(':', r0);
    lemma_parse_str_rt(p.title, r1);
    lemma_parse_char_exact(',', r2);
    lemma_parse_lit_exact("\"description\""@, r3);
    lemma_parse_char_exact(':', r4);
    lemma_parse_str_rt(p.description, seq![','] + cov);
    lemma_parse_char_exact(',', cov);
    assert(tail.len() >= 2 && tail[0] == '"' && tail[1] == 't');
    lemma_parse_opt_cover_rt(p.cover, tail);
    lemma_parse_project_tail_rt(p.title, p.description, p.cover, p.tags, p.links, rest);
    assert(ProjectView {
        title: p.title,
        description: p.description,
        cover: p.cover,
        tags: p.tags,
        links: p.links,
    } =~= p);
}

#[verifier::rlimit(60)]
proof fn lemma_parse_project_items_rt(ps: Seq<ProjectView>, rest: Seq<char>)
    requires
        ps.len() > 0,
    ensures
        parse_project_items(enc_project_list(ps) + seq![']'] + rest) == Some((ps, rest)),
    decreases ps.len(),
{
    let s = enc_project_list(ps) + seq![']'] + rest;
    if ps.len() == 1 {
        let close = seq![']'] + rest;
        assert(s =~= enc_project(ps[0]) + close);
        lemma_parse_project_rt(ps[0], close);
        assert(close[0] == ']');
        assert(skip_ws(close) == close);
        assert(parse_char(close, ',') is None);
        lemma_parse_char_exact(']', rest);
        assert(seq![']'] + rest == close);
        assert(seq![ps[0]] =~= ps);
    } else {
        let r2 = enc_project_list(ps.skip(1)) + seq![']'] + rest;
        let after = seq![','] + r2;
        assert(s =~= enc_project(ps[0]) + after);
        lemma_parse_project_rt(ps[0], after);
        lemma_parse_char_exact(',', r2);
        assert(seq![','] + r2 == after);
        assert(r2.len() < s.len());
        lemma_parse_project_items_rt(ps.skip(1), rest);
        assert(seq![ps[0]] + ps.skip(1) =~= ps);
    }
}

fn ws_char(c: char) -> (r: bool)
    ensures
        r == is_ws(c),
{
    c == ' ' || c == '\n' || c == '\t' || c == '\r'
}

fn p_ws(s: &str, pos: usize) -> (r: usize)
    requires
        pos <= s@.len(),
    ensures
        pos <= r <= s@.len(),
        skip_ws(s@.skip(pos as int)) == s@.skip(r as int),
    decreases s@.len() - pos,
{
    if pos < s.unicode_len() {
        let c = s.get_char(pos);
        if ws_char(c) {
            proof {
                assert(s@.skip(pos as int).skip(1) =~= s@.skip(pos as int + 1));
            }
            return p_ws(s, pos + 1);
        }
    }
    pos
}

fn p_char(s: &str, pos: usize, c: char) -> (r: Option<usize>)
    requires
        pos <= s@.len(),
    ensures
        match r {
            Some(p) => pos < p <= s@.len() && parse_char(s@.skip(pos as int), c) == Some(
                s@.skip(p as int),
            ),
            None => parse_char(s@.skip(pos as int), c) is None,
        },
{
    let q = p_ws(s, pos);
    if q < s.unicode_len() {
        if s.get_char(q) == c {
            proof {
                assert(s@.skip(q as int).skip(1) =~= s@.skip(q as int + 1));
            }
            return Some(q + 1);
        }
    }
    None
}

fn p_lit(s: &str, pos: usize, lit: &str) -> (r: Option<usize>)
    requires
        pos <= s@.len(),
    ensures
        match r {
            Some(p) => pos <= p <= s@.len() && parse_lit(s@.skip(pos as int), lit@) == Some(
                s@.skip(p as int),
            ) && (lit@.len() > 0 ==> pos < p),
            None => parse_lit(s@.skip(pos as int), lit@) is None,
        },
{
    let q = p_ws(s, pos);
    let n = s.unicode_len();
    let k = lit.unicode_len();
    if n - q >= k {
        let sub = s.substring_char(q, q + k);
        if sub.to_string() == lit.to_string() {
            proof {
                assert(s@.skip(q as int).subrange(0, lit@.len() as int) =~= sub@);
                assert(s@.skip(q as int).skip(lit@.len() as int) =~= s@.skip(q as int + k));
            }
            return Some(q + k);
        }
        proof {
            assert(s@.skip(q as int).subrange(0, lit@.len() as int) =~= sub@);
        }
    }
    None
}

fn char_at_string(s: &str, i: usize) -> (r: String)
    requires
        i < s@.len(),
    ensures
        r@ == seq![s@[i as int]],
{
    let _n = s.unicode_len();
    let piece = s.substring_char(i, i + 1);
    let r = piece.to_string();
    proof {
        assert(r@ =~= seq![s@[i as int]]);
    }
    r
}

fn p_str_body(s: &str, pos: usize) -> (r: Option<(String, usize)>)
    requires
        pos <= s@.len(),
    ensures
        match r {
            Some(v) => pos < v.1 <= s@.len() && parse_str_body(s@.skip(pos as int)) == Some(
                (v.0@, s@.skip(v.1 as int)),
            ),
            None => parse_str_body(s@.skip(pos as int)) is None,
        },
    decreases s@.len() - pos,
{
    if pos >= s.unicode_len() {
        return None;
    }
    let c = s.get_char(pos);
    if c == '"' {
        proof {
            assert(s@.skip(pos as int).skip(1) =~= s@.skip(pos as int + 1));
        }
        Some((String::new(), pos + 1))
    } else if c == '\\' {
        if pos + 1 >= s.unicode_len() {
            None
        } else {
            proof {
                assert(s@.skip(pos as int).skip(2) =~= s@.skip(pos as int + 2));
            }
            match p_str_body(s, pos + 2) {
                Some((tail, p)) => {
                    let mut out = char_at_string(s, pos + 1);
                    out.append(tail.as_str());
                    proof {
                        assert(out@ =~= seq![s@.skip(pos as int)[1]] + tail@);
                    }
                    Some((out, p))
                },
                None => None,
            }
        }
    } else {
        proof {
            assert(s@.skip(pos as int).skip(1) =~= s@.skip(pos as int + 1));
        }
        match p_str_body(s, pos + 1) {
            Some((tail, p)) => {
                let mut out = char_at_string(s, pos);
                out.append(tail.as_str());
                proof {
                    assert(out@ =~= seq![s@.skip(pos as int)[0]] + tail@);
                }
                Some((out, p))
            },
            None => None,
        }
    }
}

fn p_str(s: &str, pos: usize) -> (r: Option<(String, usize)>)
    requires
        pos <= s@.len(),
    ensures
        match r {
            Some(v) => pos < v.1 <= s@.len() && parse_str(s@.skip(pos as int)) == Some(
                (v.0@, s@.skip(v.1 as int)),
            ),
            None => parse_str(s@.skip(pos as int)) is None,
        },
{
    let q = p_ws(s, pos);
    if q < s.unicode_len() {
        if s.get_char(q) == '"' {
            proof {
                assert(s@.skip(q as int).skip(1) =~= s@.skip(q as int + 1));
            }
            return p_str_body(s, q + 1);
        }
    }
    None
}

fn p_strings(s: &str, pos: usize) -> (r: Option<(Vec<String>, usize)>)
    requires
        pos <= s@.len(),
    ensures
        match r {
            Some(v) => pos < v.1 <= s@.len() && parse_strings(s@.skip(pos as int)) == Some(
                (v.0.deep_view(), s@.skip(v.1 as int)),
            ),
            None => parse_strings(s@.skip(pos as int)) is None,
        },
    decreases s@.len() - pos,
{
    let (t, p1) = match p_str(s, pos) {
        Some(v) => v,
        None => {
            return None;
        },
    };
    match p_char(s, p1, ',') {
        Some(p2) => {
            proof {
                assert(s@.skip(p2 as int).len() < s@.skip(pos as int).len());
            }
            match p_strings(s, p2) {
                Some((mut ts, p3)) => {
                    ts.insert(0, t);
                    proof {
                        assert(ts.deep_view() =~= seq![t@] + ts.deep_view().skip(1));
                    }
                    Some((ts, p3))
                },
                None => None,
            }
        },
        None => {
            match p_char(s, p1, ']') {
                Some(p2) => {
                    let ts = vec![t];
                    proof {
                        assert(ts.deep_view() =~= seq![ts[0]@]);
                    }
                    Some((ts, p2))
                },
                None => None,
            }
        },
    }
}

fn p_str_array(s: &str, pos: usize) -> (r: Option<(Vec<String>, usize)>)
    requires
        pos <= s@.len(),
    ensures
        match r {
            Some(v) => pos < v.1 <= s@.len() && parse_str_array(s@.skip(pos as int)) == Some(
                (v.0.deep_view(), s@.skip(v.1 as int)),
            ),
            None => parse_str_array(s@.skip(pos as int)) is None,
        },
{
    let p1 = match p_char(s, pos, '[') {
        Some(p) => p,
        None => {
            return None;
        },
    };
    match p_char(s, p1, ']') {
        Some(p2) => {
            let ts: Vec<String> = Vec::new();
            proof {
                assert(ts.deep_view() =~= Seq::<Seq<char>>::empty());
            }
            Some((ts, p2))
        },
        None => p_strings(s, p1),
    }
}

fn p_link(s: &str, pos: usize) -> (r: Option<(Link, usize)>)
    requires
        pos <= s@.len(),
    ensures
        match r {
            Some(v) => pos < v.1 <= s@.len() && parse_link(s@.skip(pos as int)) == Some(
                (v.0@, s@.skip(v.1 as int)),
            ),
            None => parse_link(s@.skip(pos as int)) is None,
        },
{
    let p1 = match p_char(s, pos, '{') {
        Some(p) => p,
        None => {
            return None;
        },
    };
    let p2 = match p_lit(s, p1, "\"name\"") {
        Some(p) => p,
        None => {
            return None;
        },
    };
    let p3 = match p_char(s, p2, ':') {
        Some(p) => p,
        None => {
            return None;
        },
    };
    let (name, p4) = match p_str(s, p3) {
        Some(v) => v,
        None => {
            return None;
        },
    };
    let p5 = match p_char(s, p4, ',') {
        Some(p) => p,
        None => {
            return None;
        },
    };
    let p6 = match p_lit(s, p5, "\"link\"") {
        Some(p) => p,
        None => {
            return None;
        },
    };
    let p7 = match p_char(s, p6, ':') {
        Some(p) => p,
        None => {
            return None;
        },
    };
    let (url_text, p8) = match p_str(s, p7) {
        Some(v) => v,
        None => {
            return None;
        },
    };
    let p9 = match p_char(s, p8, '}') {
        Some(p) => p,
        None => {
            return None;
        },
    };
    Some((Link { name, link: Url::from_text(url_text) }, p9))
}

fn p_link_items(s: &str, pos: usize) -> (r: Option<(Vec<Link>, usize)>)
    requires
        pos <= s@.len(),
    ensures
        match r {
            Some(v) => pos < v.1 <= s@.len() && parse_link_items(s@.skip(pos as int)) == Some(
                (v.0.deep_view(), s@.skip(v.1 as int)),
            ),
            None => parse_link_items(s@.skip(pos as int)) is None,
        },
    decreases s@.len() - pos,
{
    let (l, p1) = match p_link(s, pos) {
        Some(v) => v,
        None => {
            return None;
        },
    };
    match p_char(s, p1, ',') {
        Some(p2) => {
            proof {
                assert(s@.skip(p2 as int).len() < s@.skip(pos as int).len());
            }
            match p_link_items(s, p2) {
                Some((mut ls, p3)) => {
                    ls.insert(0, l);
                    proof {
                        assert(ls.deep_view() =~= seq![ls[0]@] + ls.deep_view().skip(1));
                    }
                    Some((ls, p3))
                },
                None => None,
            }
        },
        None => {
            match p_char(s, p1, ']') {
                Some(p2) => {
                    let ls = vec![l];
                    proof {
                        assert(ls.deep_view() =~= seq![ls[0]@]);
                    }
                    Some((ls, p2))
                },
                None => None,
            }
        },
    }
}

fn p_link_array(s: &str, pos: usize) -> (r: Option<(Vec<Link>, usize)>)
    requires
        pos <= s@.len(),
    ensures
        match r {
            Some(v) => pos < v.1 <= s@.len() && parse_link_array(s@.skip(pos as int)) == Some(
                (v.0.deep_view(), s@.skip(v.1 as int)),
            ),
            None => parse_link_array(s@.skip(pos as int)) is None,
        },
{
    let p1 = match p_char(s, pos, '[') {
        Some(p) => p,
        None => {
            return None;
        },
    };
    match p_char(s, p1, ']') {
        Some(p2) => {
            let ls: Vec<Link> = Vec::new();
            proof {
                assert(ls.deep_view() =~= Seq::<LinkView>::empty());
            }
            Some((ls, p2))
        },
        None => p_link_items(s, p1),
    }
}

fn p_opt_cover(s: &str, pos: usize) -> (r: Option<(Option<Url>, usize)>)
    requires
        pos <= s@.len(),
    ensures
        match r {
            Some(v) => pos <= v.1 <= s@.len() && parse_opt_cover(s@.skip(pos as int)) == Some(
                (v.0.deep_view(), s@.skip(v.1 as int)),
            ),
            None => parse_opt_cover(s@.skip(pos as int)) is None,
        },
{
    match p_lit(s, pos, "\"cover\"") {
        Some(p1) => {
            let p2 = match p_char(s, p1, ':') {
                Some(p) => p,
                None => {
                    return None;
                },
            };
            let (u, p3) = match p_str(s, p2) {
                Some(v) => v,
                None => {
                    return None;
                },
            };
            let p4 = match p_char(s, p3, ',') {
                Some(p) => p,
                None => {
                    return None;
                },
            };
            Some((Some(Url::from_text(u)), p4))
        },
        None => Some((None, pos)),
    }
}

fn p_project_tail(
    s: &str,
    pos: usize,
    title: String,
    description: String,
    cover: Option<Url>,
) -> (r: Option<(Project, usize)>)
    requires
        pos <= s@.len(),
    ensures
        match r {
            Some(v) => pos < v.1 <= s@.len() && parse_project_tail(
                s@.skip(pos as int),
                title@,
                description@,
                cover.deep_view(),
            ) == Some((v.0@, s@.skip(v.1 as int))),
            None => parse_project_tail(
                s@.skip(pos as int),
                title@,
                description@,
                cover.deep_view(),
            ) is None,
        },
{
    let p1 = match p_lit(s, pos, "\"tags\"") {
        Some(p) => p,
        None => {
            return None;
        },
    };
    let p2 = match p_char(s, p1, ':') {
        Some(p) => p,
        None => {
            return None;
        },
    };
    let (tags, p3) = match p_str_array(s, p2) {
        Some(v) => v,
        None => {
            return None;
        },
    };
    let p4 = match p_char(s, p3, ',') {
        Some(p) => p,
        None => {
            return None;
        },
    };
    let p5 = match p_lit(s, p4, "\"links\"") {
        Some(p) => p,
        None => {
            return None;
        },
    };
    let p6 = match p_char(s, p5, ':') {
        Some(p) => p,
        None => {
            return None;
        },
    };
    let (links, p7) = match p_link_array(s, p6) {
        Some(v) => v,
        None => {
            return None;
        },
    };
    let p8 = match p_char(s, p7, '}') {
        Some(p) => p,
        None => {
            return None;
        },
    };
    Some((Project { title, description, cover, tags, links }, p8))
}

fn p_project(s: &str, pos: usize) -> (r: Option<(Project, usize)>)
    requires
        pos <= s@.len(),
    ensures
        match r {
            Some(v) => pos < v.1 <= s@.len() && parse_project(s@.skip(pos as int)) == Some(
                (v.0@, s@.skip(v.1 as int)),
            ),
            None => parse_project(s@.skip(pos as int)) is None,
        },
{
    let p1 = match p_char(s, pos, '{') {
        Some(p) => p,
        None => {
            return None;
        },
    };
    let p2 = match p_lit(s, p1, "\"title\"") {
        Some(p) => p,
        None => {
            return None;
        },
    };
    let p3 = match p_char(s, p2, ':') {
        Some(p) => p,
        None => {
            return None;
        },
    };
    let (title, p4) = match p_str(s, p3) {
        Some(v) => v,
        None => {
            return None;
        },
    };
    let p5 = match p_char(s, p4, ',') {
        Some(p) => p,
        None => {
            return None;
        },
    };
    let p6 = match p_lit(s, p5, "\"description\"") {
        Some(p) => p,
        None => {
            return None;
        },
    };
    let p7 = match p_char(s, p6, ':') {
        Some(p) => p,
        None => {
            return None;
        },
    };
    let (description, p8) = match p_str(s, p7) {
        Some(v) => v,
        None => {
            return None;
        },
    };
    let p9 = match p_char(s, p8, ',') {
        Some(p) => p,
        None => {
            return None;
        },
    };
    let (cover, p10) = match p_opt_cover(s, p9) {
        Some(v) => v,
        None => {
            return None;
        },
    };
    p_project_tail(s, p10, title, description, cover)
}

fn p_project_items(s: &str, pos: usize) -> (r: Option<(Vec<Project>, usize)>)
    requires
        pos <= s@.len(),
    ensures
        match r {
            Some(v) => pos < v.1 <= s@.len() && parse_project_items(s@.skip(pos as int)) == Some(
                (v.0.deep_view(), s@.skip(v.1 as int)),
            ),
            None => parse_project_items(s@.skip(pos as int)) is None,
        },
    decreases s@.len() - pos,
{
    let (p, p1) = match p_project(s, pos) {
        Some(v) => v,
        None => {
            return None;
        },
    };
    match p_char(s, p1, ',') {
        Some(p2) => {
            proof {
                assert(s@.skip(p2 as int).len() < s@.skip(pos as int).len());
            }
            match p_project_items(s, p2) {
                Some((mut ps, p3)) => {
                    ps.insert(0, p);
                    proof {
                        assert(ps.deep_view() =~= seq![ps[0]@] + ps.deep_view().skip(1));
                    }
                    Some((ps, p3))
                },
                None => None,
            }
        },
        None => {
            match p_char(s, p1, ']') {
                Some(p2) => {
                    let ps = vec![p];
                    proof {
                        assert(ps.deep_view() =~= seq![ps[0]@]);
                    }
                    Some((ps, p2))
                },
                None => None,
            }
        },
    }
}

impl Projects {
    /// Decodes a portfolio from its text, or fails where the text does not
    /// hold one.
    pub fn from_json(s: &str) -> (r: Option<Projects>)
        ensures
            match r {
                Some(ps) => parse_projects_text(s@) == Some(ps@),
                None => parse_projects_text(s@) is None,
            },
    {
        proof {
            assert(s@.skip(0) =~= s@);
        }
        let p1 = match p_char(s, 0, '{') {
            Some(p) => p,
            None => {
                return None;
            },
        };
        let p2 = match p_lit(s, p1, "\"projects\"") {
            Some(p) => p,
            None => {
                return None;
            },
        };
        let p3 = match p_char(s, p2, ':') {
            Some(p) => p,
            None => {
                return None;
            },
        };
        let p4 = match p_char(s, p3, '[') {
            Some(p) => p,
            None => {
                return None;
            },
        };
        let (projects, p5) = match p_char(s, p4, ']') {
            Some(p) => {
                let ps: Vec<Project> = Vec::new();
                proof {
                    assert(ps.deep_view() =~= Seq::<ProjectView>::empty());
                }
                (ps, p)
            },
            None => {
                match p_project_items(s, p4) {
                    Some(v) => v,
                    None => {
                        return None;
                    },
                }
            },
        };
        let p6 = match p_char(s, p5, '}') {
            Some(p) => p,
            None => {
                return None;
            },
        };
        let p7 = p_ws(s, p6);
        if p7 == s.unicode_len() {
            Some(Projects { projects })
        } else {
            proof {
                assert(skip_ws(s@.skip(p6 as int)).len() > 0);
            }
            None
        }
    }
}

proof fn lemma_esc_concat(a: Seq<char>, b: Seq<char>)
    ensures
        esc(a + b) == esc(a) + esc(b),
    decreases a.len(),
{
    if a.len() == 0 {
        assert(a + b =~= b);
        assert(esc(a) =~= Seq::<char>::empty());
        assert(esc(a) + esc(b) =~= esc(b));
    } else {
        assert((a + b)[0] == a[0]);
        assert((a + b).skip(1) =~= a.skip(1) + b);
        lemma_esc_concat(a.skip(1), b);
        assert(esc(a + b) =~= esc(a) + esc(b));
    }
}

proof fn lemma_enc_strings_snoc(v: Seq<Seq<char>>, x: Seq<char>)
    requires
        v.len() >= 1,
    ensures
        enc_strings(v.push(x)) == enc_strings(v) + seq![','] + enc_str(x),
    decreases v.len(),
{
    let w = v.push(x);
    assert(w[0] == v[0]);
    if v.len() == 1 {
        assert(w.skip(1) =~= seq![x]);
        assert(enc_strings(seq![x]) == enc_str(x));
        assert(enc_strings(w) =~= enc_strings(v) + seq![','] + enc_str(x));
    } else {
        assert(w.skip(1) =~= v.skip(1).push(x));
        lemma_enc_strings_snoc(v.skip(1), x);
        assert(enc_strings(w) =~= enc_strings(v) + seq![','] + enc_str(x));
    }
}

proof fn lemma_enc_link_list_snoc(v: Seq<LinkView>, x: LinkView)
    requires
        v.len() >= 1,
    ensures
        enc_link_list(v.push(x)) == enc_link_list(v) + seq![','] + enc_link(x),
    decreases v.len(),
{
    let w = v.push(x);
    assert(w[0] == v[0]);
    if v.len() == 1 {
        assert(w.skip(1) =~= seq![x]);
        assert(enc_link_list(seq![x]) == enc_link(x));
        assert(enc_link_list(w) =~= enc_link_list(v) + seq![','] + enc_link(x));
    } else {
        assert(w.skip(1) =~= v.skip(1).push(x));
        lemma_enc_link_list_snoc(v.skip(1), x);
        assert(enc_link_list(w) =~= enc_link_list(v) + seq![','] + enc_link(x));
    }
}

proof fn lemma_enc_project_list_snoc(v: Seq<ProjectView>, x: ProjectView)
    requires
        v.len() >= 1,
    ensures
        enc_project_list(v.push(x)) == enc_project_list(v) + seq![','] + enc_project(x),
    decreases v.len(),
{
    let w = v.push(x);
    assert(w[0] == v[0]);
    if v.len() == 1 {
        assert(w.skip(1) =~= seq![x]);
        assert(enc_project_list(seq![x]) == enc_project(x));
        assert(enc_project_list(w) =~= enc_project_list(v) + seq![','] + enc_project(x));
    } else {
        assert(w.skip(1) =~= v.skip(1).push(x));
        lemma_enc_project_list_snoc(v.skip(1), x);
        assert(enc_project_list(w) =~= enc_project_list(v) + seq![','] + enc_project(x));
    }
}

fn esc_append(out: String, s: &str) -> (r: String)
    ensures
        r@ == out@ + esc(s@),
{
    let ghost base = out@;
    let mut o = out;
    let n = s.unicode_len();
    proof {
        assert(o@ =~= base + esc(s@.take(0)));
    }
    let mut i: usize = 0;
    while i < n
        invariant
            i <= n,
            n == s@.len(),
            o@ == base + esc(s@.take(i as int)),
        decreases n - i,
    {
        let c = s.get_char(i);
        if c == '"' || c == '\\' {
            o.append("\\");
        }
        let piece = s.substring_char(i, i + 1);
        o.append(piece);
        proof {
            reveal_strlit("\\");
            lemma_esc_concat(s@.take(i as int), seq![c]);
            assert(s@.take(i as int + 1) =~= s@.take(i as int) + seq![c]);
            assert(seq![c].skip(1) =~= Seq::<char>::empty());
            assert(esc(Seq::<char>::empty()) =~= Seq::<char>::empty());
            assert(esc(seq![c]) =~= esc_char(c) + esc(Seq::<char>::empty()));
            assert(esc(seq![c]) =~= esc_char(c));
            assert(piece@ =~= seq![c]);
            assert(o@ =~= base + esc(s@.take(i as int + 1)));
        }
        i += 1;
    }
    proof {
        assert(s@.take(n as int) =~= s@);
    }
    o
}

fn enc_str_append(out: String, s: &str) -> (r: String)
    ensures
        r@ == out@ + enc_str(s@),
{
    let mut o = out;
    o.append("\"");
    o = esc_append(o, s);
    o.append("\"");
    proof {
        reveal_strlit("\"");
        assert(o@ =~= out@ + enc_str(s@));
    }
    o
}

fn enc_link_append(out: String, l: &Link) -> (r: String)
    ensures
        r@ == out@ + enc_link(l@),
{
    let mut o = out;
    o.append("{");
    o.append("\"name\"");
    o.append(":");
    o = enc_str_append(o, l.name.as_str());
    o.append(",");
    o.append("\"link\"");
    o.append(":");
    o = enc_str_append(o, l.link.as_str());
    o.append("}");
    proof {
        reveal_strlit("{");
        reveal_strlit(":");
        reveal_strlit(",");
        reveal_strlit("}");
        assert(o@ =~= out@ + enc_link(l@));
    }
    o
}

fn enc_strings_append(out: String, ts: &Vec<String>) -> (r: String)
    ensures
        r@ == out@ + enc_strings(ts.deep_view()),
{
    let ghost base = out@;
    let ghost vts = ts.deep_view();
    let mut o = out;
    if ts.len() == 0 {
        proof {
            assert(enc_strings(vts) =~= Seq::<char>::empty());
            assert(o@ =~= base + enc_strings(vts));
        }
        return o;
    }
    o = enc_str_append(o, ts[0].as_str());
    proof {
        assert(vts.take(1) =~= seq![vts[0]]);
        assert(enc_strings(seq![vts[0]]) == enc_str(vts[0]));
        assert(o@ =~= base + enc_strings(vts.take(1)));
    }
    let mut i: usize = 1;
    while i < ts.len()
        invariant
            1 <= i <= ts@.len(),
            vts == ts.deep_view(),
            o@ == base + enc_strings(vts.take(i as int)),
        decreases ts@.len() - i,
    {
        o.append(",");
        o = enc_str_append(o, ts[i].as_str());
        proof {
            reveal_strlit(",");
            lemma_enc_strings_snoc(vts.take(i as int), vts[i as int]);
            assert(vts.take(i as int + 1) =~= vts.take(i as int).push(vts[i as int]));
            assert(o@ =~= base + enc_strings(vts.take(i as int + 1)));
        }
        i += 1;
    }
    proof {
        assert(vts.take(ts@.len() as int) =~= vts);
    }
    o
}

fn enc_links_append(out: String, ls: &Vec<Link>) -> (r: String)
    ensures
        r@ == out@ + enc_link_list(ls.deep_view()),
{
    let ghost base = out@;
    let ghost vls = ls.deep_view();
    let mut o = out;
    if ls.len() == 0 {
        proof {
            assert(enc_link_list(vls) =~= Seq::<char>::empty());
            assert(o@ =~= base + enc_link_list(vls));
        }
        return o;
    }
    o = enc_link_append(o, &ls[0]);
    proof {
        assert(vls.take(1) =~= seq![vls[0]]);
        assert(enc_link_list(seq![vls[0]]) == enc_link(vls[0]));
        assert(o@ =~= base + enc_link_list(vls.take(1)));
    }
    let mut i: usize = 1;
    while i < ls.len()
        invariant
            1 <= i <= ls@.len(),
            vls == ls.deep_view(),
            o@ == base + enc_link_list(vls.take(i as int)),
        decreases ls@.len() - i,
    {
        o.append(",");
        o = enc_link_append(o, &ls[i]);
        proof {
            reveal_strlit(",");
            lemma_enc_link_list_snoc(vls.take(i as int), vls[i as int]);
            assert(vls.take(i as int + 1) =~= vls.take(i as int).push(vls[i as int]));
            assert(o@ =~= base + enc_link_list(vls.take(i as int + 1)));
        }
        i += 1;
    }
    proof {
        assert(vls.take(ls@.len() as int) =~= vls);
    }
    o
}

#[verifier::rlimit(100)]
fn enc_project_append(out: String, p: &Project) -> (r: String)
    ensures
        r@ == out@ + enc_project(p@),
{
    proof {
        reveal_strlit("{");
        reveal_strlit(":");
        reveal_strlit(",");
        reveal_strlit("}");
        reveal_strlit("[");
        reveal_strlit("]");
    }
    let mut o = out;
    o.append("{");
    o.append("\"title\"");
    o.append(":");
    o = enc_str_append(o, p.title.as_str());
    o.append(",");
    o.append("\"description\"");
    o.append(":");
    o = enc_str_append(o, p.description.as_str());
    o.append(",");
    let ghost head = o@;
    proof {
        assert(head =~= out@ + seq!['{'] + "\"title\""@ + seq![':'] + enc_str(p@.title)
            + seq![','] + "\"description\""@ + seq![':'] + enc_str(p@.description) + seq![',']);
    }
    match &p.cover {
        Some(u) => {
            o.append("\"cover\"");
            o.append(":");
            o = enc_str_append(o, u.as_str());
            o.append(",");
            proof {
                assert(o@ =~= head + enc_cover(p@.cover));
            }
        },
        None => {
            proof {
                assert(o@ =~= head + enc_cover(p@.cover));
            }
        },
    }
    let ghost mid = o@;
    o.append("\"tags\"");
    o.append(":");
    o.append("[");
    o = enc_strings_append(o, &p.tags);
    o.append("]");
    o.append(",");
    o.append("\"links\"");
    o.append(":");
    o.append("[");
    o = enc_links_append(o, &p.links);
    o.append("]");
    o.append("}");
    proof {
        assert(o@ =~= mid + enc_project_tail(p@.tags, p@.links));
        assert(o@ =~= out@ + enc_project(p@));
    }
    o
}

fn enc_project_list_append(out: String, ps: &Vec<Project>) -> (r: String)
    ensures
        r@ == out@ + enc_project_list(ps.deep_view()),
{
    let ghost base = out@;
    let ghost vps = ps.deep_view();
    let mut o = out;
    if ps.len() == 0 {
        proof {
            assert(enc_project_list(vps) =~= Seq::<char>::empty());
            assert(o@ =~= base + enc_project_list(vps));
        }
        return o;
    }
    o = enc_project_append(o, &ps[0]);
    proof {
        assert(vps.take(1) =~= seq![vps[0]]);
        assert(enc_project_list(seq![vps[0]]) == enc_project(vps[0]));
        assert(o@ =~= base + enc_project_list(vps.take(1)));
    }
    let mut i: usize = 1;
    while i < ps.len()
        invariant
            1 <= i <= ps@.len(),
            vps == ps.deep_view(),
            o@ == base + enc_project_list(vps.take(i as int)),
        decreases ps@.len() - i,
    {
        o.append(",");
        o = enc_project_append(o, &ps[i]);
        proof {
            reveal_strlit(",");
            lemma_enc_project_list_snoc(vps.take(i as int), vps[i as int]);
            assert(vps.take(i as int + 1) =~= vps.take(i as int).push(vps[i as int]));
            assert(o@ =~= base + enc_project_list(vps.take(i as int + 1)));
        }
        i += 1;
    }
    proof {
        assert(vps.take(ps@.len() as int) =~= vps);
    }
    o
}

impl Projects {
    /// Encodes the portfolio as its canonical text: no whitespace, fields
    /// in declaration order, an absent cover left out.
    pub fn to_json(&self) -> (r: String)
        ensures
            r@ == enc_projects(self@),
    {
        let mut o = String::new();
        o.append("{");
        o.append("\"projects\"");
        o.append(":");
        o.append("[");
        o = enc_project_list_append(o, &self.projects);
        o.append("]");
        o.append("}");
        proof {
            reveal_strlit("{");
            reveal_strlit(":");
            reveal_strlit("[");
            reveal_strlit("]");
            reveal_strlit("}");
            assert(o@ =~= enc_projects(self@));
        }
        o
    }
}

/// Serialization round-trip: decoding the encoding of any portfolio gives
/// the same portfolio back, the absent cover staying absent and a present
/// cover keeping its URL.
pub proof fn lemma_json_round_trip(ps: Seq<ProjectView>)
    ensures
        parse_projects_text(enc_projects(ps)) == Some(ps),
{
    reveal_strlit("\"projects\"");
    let s = enc_projects(ps);
    let r5 = seq!['}'] + Seq::<char>::empty();
    let r4 = enc_project_list(ps) + (seq![']'] + r5);
    let r3 = seq!['['] + r4;
    let r2 = seq![':'] + r3;
    let r1 = "\"projects\""@ + r2;
    assert(s =~= seq!['{'] + r1);
    lemma_parse_char_exact('{', r1);
    assert(seq!['{'] + r1 == s);
    lemma_parse_lit_exact("\"projects\""@, r2);
    lemma_parse_char_exact(':', r3);
    lemma_parse_char_exact('[', r4);
    assert(seq!['['] + r4 == r3);
    if ps.len() == 0 {
        assert(r4 =~= seq![']'] + r5);
        lemma_parse_char_exact(']', r5);
        assert(seq![']'] + r5 == r4);
        assert(Seq::<ProjectView>::empty() =~= ps);
    } else {
        assert(enc_project_list(ps).len() > 0 && enc_project_list(ps)[0] == '{');
        assert(r4[0] == '{');
        assert(skip_ws(r4) == r4);
        assert(parse_char(r4, ']') is None);
        lemma_parse_project_items_rt(ps, r5);
        assert(enc_project_list(ps) + seq![']'] + r5 == r4);
    }
    lemma_parse_char_exact('}', Seq::<char>::empty());
    assert(skip_ws(Seq::<char>::empty()).len() == 0);
}

} // verus!
