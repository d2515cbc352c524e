//! `rotiv explain`: lookup of knowledge-base topics and the structured form
//! of a topic's Markdown text.

use vstd::prelude::*;
use crate::chars::{spec_str_to_lower, str_to_lower};
use crate::error::RotivError;
use crate::text::{
    chars_of, contains_chars, contains_seq, copy_str, join_with, lines, lines_of, push_all,
    split_char, split_chars, starts_with, starts_with_chars, str_views, string_from, trim_start_char,
    trim_start_chars, trim_ws, trim_ws_chars, views,
};

verus! {

broadcast use vstd::seq_lib::group_seq_properties;

/// The names of the knowledge-base topics, in lookup order.
pub open spec fn topics() -> Seq<Seq<char>> {
    seq![
        "routes"@, "models"@, "loader"@, "action"@, "middleware"@, "signals"@, "migrate"@,
        "context"@, "modules"@,
    ]
}

/// The names of the knowledge-base topics, in lookup order.
pub fn topic_names() -> (r: Vec<&'static str>)
    ensures
        r@.map_values(|s: &str| s@) == topics(),
{
    let v = vec![
        "routes", "models", "loader", "action", "middleware", "signals", "migrate", "context",
        "modules",
    ];
    assert(v@.map_values(|s: &str| s@) =~= topics());
    v
}

/// The index of the first of `names[i..]` that satisfies `p`.
pub open spec fn first_from(names: Seq<Seq<char>>, p: spec_fn(Seq<char>) -> bool, i: int) -> Option<nat>
    decreases names.len() - i,
{
    if i < 0 || i >= names.len() {
        None
    } else if p(names[i]) {
        Some(i as nat)
    } else {
        first_from(names, p, i + 1)
    }
}

/// Topic lookup on the lower-cased query: an exact name first, then the first
/// name that starts with the query, then the first that contains it.
pub open spec fn lookup(names: Seq<Seq<char>>, q: Seq<char>) -> Option<nat> {
    match first_from(names, |n: Seq<char>| n == q, 0) {
        Some(i) => Some(i),
        None => match first_from(names, |n: Seq<char>| starts_with(n, q), 0) {
            Some(i) => Some(i),
            None => first_from(names, |n: Seq<char>| contains_seq(n, q), 0),
        },
    }
}

/// Which of the three tests a pass of the lookup applies.
enum Match {
    Exact,
    Prefix,
    Within,
}

spec fn match_pred(m: Match, q: Seq<char>) -> spec_fn(Seq<char>) -> bool {
    match m {
        Match::Exact => |n: Seq<char>| n == q,
        Match::Prefix => |n: Seq<char>| starts_with(n, q),
        Match::Within => |n: Seq<char>| contains_seq(n, q),
    }
}

fn first_match(names: &Vec<Vec<char>>, q: &Vec<char>, m: Match) -> (r: Option<usize>)
    ensures
        match r {
            Some(i) => Some(i as nat),
            None => None,
        } == first_from(views(names@), match_pred(m, q@), 0),
{
    let ghost nv = views(names@);
    let ghost p = match_pred(m, q@);
    let mut i: usize = 0;
    while i < names.len()
        invariant
            nv == views(names@),
            p == match_pred(m, q@),
            i <= names.len(),
            first_from(nv, p, 0) == first_from(nv, p, i as int),
        decreases names.len() - i,
    {
        assert(nv[i as int] == names@[i as int]@);
        let hit = match m {
            Match::Exact => crate::text::eq_chars(&names[i], q),
            Match::Prefix => starts_with_chars(&names[i], q),
            Match::Within => contains_chars(&names[i], q),
        };
        if hit {
            return Some(i);
        }
        i = i + 1;
    }
    None
}

/// Finds the topic for a query: the query is lower-cased, then matched
/// exactly, as a prefix, then as a substring of a topic name.
pub fn find_topic(topic: &str) -> (r: Option<usize>)
    ensures
        match r {
            Some(i) => Some(i as nat),
            None => None,
        } == lookup(topics(), spec_str_to_lower(topic@)),
{
    let lower = str_to_lower(topic);
    let q = chars_of(lower.as_str());
    let names = topic_names();
    let mut nv: Vec<Vec<char>> = Vec::new();
    let mut i: usize = 0;
    while i < names.len()
        invariant
            names@.map_values(|s: &str| s@) == topics(),
            i <= names.len(),
            views(nv@) == topics().subrange(0, i as int),
        decreases names.len() - i,
    {
        let ghost prev = views(nv@);
        nv.push(chars_of(names[i]));
        assert(views(nv@) =~= prev.push(names@[i as int]@));
        assert(topics().subrange(0, i + 1) =~= topics().subrange(0, i as int).push(topics()[i as int]));
        i = i + 1;
    }
    assert(topics().subrange(0, 9) =~= topics());
    assert(match_pred(Match::Exact, q@) == (|n: Seq<char>| n == q@));
    assert(match_pred(Match::Prefix, q@) == (|n: Seq<char>| starts_with(n, q@)));
    assert(match_pred(Match::Within, q@) == (|n: Seq<char>| contains_seq(n, q@)));
    match first_match(&nv, &q, Match::Exact) {
        Some(i) => Some(i),
        None => match first_match(&nv, &q, Match::Prefix) {
            Some(i) => Some(i),
            None => first_match(&nv, &q, Match::Within),
        },
    }
}

/// The error for a query that matches no topic.
pub fn unknown_topic_error(topic: &str) -> (r: RotivError)
    ensures
        r.code@ == "E020"@,
        r.message@ == "unknown topic '"@ + topic@ + "'. Available topics: "@ + join_with(topics(), ", "@),
        r.suggestion matches Some(s) && s@ == "Try: rotiv explain routes"@,
        r.file is None && r.line is None && r.expected is None && r.got is None && r.corrected_code is None,
{
    let names = topic_names();
    let mut parts: Vec<Vec<char>> = Vec::new();
    let mut i: usize = 0;
    while i < names.len()
        invariant
            names@.map_values(|s: &str| s@) == topics(),
            i <= names.len(),
            views(parts@) == topics().subrange(0, i as int),
        decreases names.len() - i,
    {
        let ghost prev = views(parts@);
        parts.push(chars_of(names[i]));
        assert(views(parts@) =~= prev.push(names@[i as int]@));
        assert(topics().subrange(0, i + 1) =~= topics().subrange(0, i as int).push(topics()[i as int]));
        i = i + 1;
    }
    assert(topics().subrange(0, 9) =~= topics());
    let sep = chars_of(", ");
    let joined = crate::text::join_chars(&parts, &sep);
    let mut msg = copy_str("unknown topic '");
    msg.append(topic);
    msg.append("'. Available topics: ");
    let js = string_from(&joined);
    msg.append(js.as_str());
    let mut hint = copy_str("Try: rotiv explain ");
    hint.append(names[0]);
    proof {
        reveal_strlit("Try: rotiv explain ");
        reveal_strlit("routes");
        reveal_strlit("Try: rotiv explain routes");
        assert(names@[0]@ == topics()[0]);
        assert(hint@ =~= "Try: rotiv explain routes"@);
    }
    RotivError::new("E020", msg.as_str()).with_suggestion(hint.as_str())
}

/// The structured form of a topic.
#[derive(Debug)]
pub struct TopicJson {
    pub topic: String,
    pub explanation: String,
    pub code_example: String,
    pub related: Vec<String>,
}

/// The section of a topic file being read.
#[derive(PartialEq, Eq, Structural, Clone, Copy)]
pub enum Section {
    Preamble,
    Explanation,
    CodeExample,
    Related,
}

/// What has been gathered after some lines: the section, whether a code fence
/// is open, the explanation and code text, and the related topics.
pub struct ParseState {
    pub section: Section,
    pub in_code: bool,
    pub explanation: Seq<char>,
    pub code: Seq<char>,
    pub related: Seq<Seq<char>>,
}

/// The non-empty trimmed items of comma-separated pieces.
pub open spec fn related_items(pieces: Seq<Seq<char>>) -> Seq<Seq<char>>
    decreases pieces.len(),
{
    if pieces.len() == 0 {
        Seq::empty()
    } else {
        let t = trim_ws(pieces.last());
        related_items(pieces.drop_last()) + if t.len() > 0 {
            seq![t]
        } else {
            Seq::empty()
        }
    }
}

/// The related topics a line of the `Related` section names: leading `-`
/// removed, the rest trimmed and split at commas.
pub open spec fn related_of_line(line: Seq<char>) -> Seq<Seq<char>> {
    related_items(split_char(trim_ws(trim_start_char(line, '-')), ','))
}

pub open spec fn fence() -> Seq<char> {
    "```"@
}

/// The state after reading one more line.
pub open spec fn step(st: ParseState, line: Seq<char>) -> ParseState {
    if starts_with(line, "## Explanation"@) {
        ParseState { section: Section::Explanation, ..st }
    } else if starts_with(line, "## Code Example"@) {
        ParseState { section: Section::CodeExample, ..st }
    } else if starts_with(line, "## Related"@) {
        ParseState { section: Section::Related, ..st }
    } else if starts_with(line, "# "@) {
        st
    } else {
        match st.section {
            Section::Explanation => ParseState { explanation: st.explanation + line + seq!['\n'], ..st },
            Section::CodeExample => if starts_with(line, fence()) {
                ParseState { in_code: !st.in_code, ..st }
            } else {
                ParseState { code: st.code + line + seq!['\n'], ..st }
            },
            Section::Related => ParseState { related: st.related + related_of_line(line), ..st },
            Section::Preamble => st,
        }
    }
}

/// The state after reading the lines `ls`.
pub open spec fn parse_lines(ls: Seq<Seq<char>>) -> ParseState
    decreases ls.len(),
{
    if ls.len() == 0 {
        ParseState {
            section: Section::Preamble,
            in_code: false,
            explanation: Seq::empty(),
            code: Seq::empty(),
            related: Seq::empty(),
        }
    } else {
        step(parse_lines(ls.drop_last()), ls.last())
    }
}

/// The related topics of a line, appended to `out`.
fn push_related(out: &mut Vec<String>, line: &Vec<char>)
    ensures
        str_views(final(out)@) == str_views(old(out)@) + related_of_line(line@),
{
    let a = trim_start_chars(line, '-');
    let b = trim_ws_chars(&a);
    let pieces = split_chars(&b, ',');
    let ghost pv = views(pieces@);
    let mut i: usize = 0;
    while i < pieces.len()
        invariant
            pv == views(pieces@),
            i <= pieces.len(),
            str_views(out@) == str_views(old(out)@) + related_items(pv.subrange(0, i as int)),
        decreases pieces.len() - i,
    {
        assert(pv.subrange(0, i + 1).drop_last() =~= pv.subrange(0, i as int));
        assert(pv[i as int] == pieces@[i as int]@);
        let t = trim_ws_chars(&pieces[i]);
        let ghost prev = str_views(out@);
        if t.len() > 0 {
            out.push(string_from(&t));
            assert(str_views(out@) =~= prev + seq![t@]);
        } else {
            assert(str_views(out@) =~= prev + Seq::<Seq<char>>::empty());
        }
        i = i + 1;
    }
    assert(pv.subrange(0, pv.len() as int) =~= pv);
}

/// Parses a Markdown topic file into its sections: the text under
/// `## Explanation`, the code under `## Code Example` (fence lines dropped),
/// and the comma-separated items under `## Related`; `# ` title lines are skipped.
pub fn parse_topic(name: &str, content: &str) -> (r: TopicJson)
    ensures
        r.topic@ == name@,
        r.explanation@ == trim_ws(parse_lines(lines(content@)).explanation),
        r.code_example@ == trim_ws(parse_lines(lines(content@)).code),
        str_views(r.related@) == parse_lines(lines(content@)).related,
{
    let c = chars_of(content);
    let ls = lines_of(&c);
    let ghost lv = views(ls@);
    let h_expl = chars_of("## Explanation");
    let h_code = chars_of("## Code Example");
    let h_rel = chars_of("## Related");
    let h_title = chars_of("# ");
    let fence_v = chars_of("```");
    let mut section = Section::Preamble;
    let mut in_code = false;
    let mut explanation: Vec<char> = Vec::new();
    let mut code: Vec<char> = Vec::new();
    let mut related: Vec<String> = Vec::new();
    let mut i: usize = 0;
    while i < ls.len()
        invariant
            lv == views(ls@),
            h_expl@ == "## Explanation"@,
            h_code@ == "## Code Example"@,
            h_rel@ == "## Related"@,
            h_title@ == "# "@,
            fence_v@ == fence(),
            i <= ls.len(),
            ({
                let st = parse_lines(lv.subrange(0, i as int));
                &&& st.section == section
                &&& st.in_code == in_code
                &&& st.explanation == explanation@
                &&& st.code == code@
                &&& st.related == str_views(related@)
            }),
        decreases ls.len() - i,
    {
        assert(lv.subrange(0, i + 1).drop_last() =~= lv.subrange(0, i as int));
        assert(lv[i as int] == ls@[i as int]@);
        let line = &ls[i];
        if starts_with_chars(line, &h_expl) {
            section = Section::Explanation;
        } else if starts_with_chars(line, &h_code) {
            section = Section::CodeExample;
        } else if starts_with_chars(line, &h_rel) {
            section = Section::Related;
        } else if starts_with_chars(line, &h_title) {
        } else {
            match section {
                Section::Explanation => {
                    push_all(&mut explanation, line);
                    explanation.push('\n');
                },
                Section::CodeExample => {
                    if starts_with_chars(line, &fence_v) {
                        in_code = !in_code;
                    } else {
                        push_all(&mut code, line);
                        code.push('\n');
                    }
                },
                Section::Related => {
                    push_related(&mut related, line);
                },
                Section::Preamble => {},
            }
        }
        i = i + 1;
    }
    assert(lv.subrange(0, lv.len() as int) =~= lv);
    TopicJson {
        topic: copy_str(name),
        explanation: string_from(&trim_ws_chars(&explanation)),
        code_example: string_from(&trim_ws_chars(&code)),
        related,
    }
}

} // verus!
