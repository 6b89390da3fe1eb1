//! The grammar of initial-condition files.
//!
//! A file is a sequence of lines. Blank lines and lines starting with `#` or
//! `;` are skipped. A line `[name]` opens a section; sections whose lowercase
//! name starts with `body` describe one body each, all others are ignored.
//! Inside a body section a line `key = value` assigns the value text to the
//! body field named by the lowercase key; unknown keys are ignored, and the
//! value loses an inline comment after `#` or `;`. Turning value texts into
//! numbers is left to the caller, which sees the assignments in file order.
use vstd::prelude::*;
use crate::text::{
    before, chars_of, contains, find_char, first_index, has_prefix, lower_of, lowercase,
    same_chars, split_lines, starts_with, trim, trim_range,
};

verus! {

/// A field of a body's initial conditions.
#[derive(Clone, Copy, Debug, PartialEq, Eq, Structural)]
pub enum Field {
    Mass,
    PositionX,
    PositionY,
    PositionZ,
    VelocityX,
    VelocityY,
    VelocityZ,
}

/// One `key = value` line of a body section: the field it sets and the
/// value text, trimmed and without inline comment.
#[derive(Debug)]
pub struct Assignment {
    pub field: Field,
    pub value: String,
}

impl View for Assignment {
    type V = (Field, Seq<char>);

    open spec fn view(&self) -> (Field, Seq<char>) {
        (self.field, self.value@)
    }
}

/// The assignments of one body section, in file order.
#[derive(Debug)]
pub struct BodySection {
    pub assignments: Vec<Assignment>,
}

/// What a body section holds: its assignments in order.
pub type SectionModel = Seq<(Field, Seq<char>)>;

impl View for BodySection {
    type V = SectionModel;

    open spec fn view(&self) -> SectionModel {
        self.assignments@.map_values(|a: Assignment| a@)
    }
}

/// The views of a sequence of sections.
pub open spec fn sections_view(v: Seq<BodySection>) -> Seq<SectionModel> {
    v.map_values(|b: BodySection| b@)
}

/// The view of an optional open section.
pub open spec fn open_view(c: Option<BodySection>) -> Option<SectionModel> {
    match c {
        Some(b) => Some(b@),
        None => None,
    }
}

/// The field that a lowercase key names.
pub open spec fn field_named(k: Seq<char>) -> Option<Field> {
    if k == "mass"@ {
        Some(Field::Mass)
    } else if k == "position_x"@ {
        Some(Field::PositionX)
    } else if k == "position_y"@ {
        Some(Field::PositionY)
    } else if k == "position_z"@ {
        Some(Field::PositionZ)
    } else if k == "velocity_x"@ {
        Some(Field::VelocityX)
    } else if k == "velocity_y"@ {
        Some(Field::VelocityY)
    } else if k == "velocity_z"@ {
        Some(Field::VelocityZ)
    } else {
        None
    }
}

/// Whether a lowercase section name opens a body section.
pub open spec fn is_body_name(name: Seq<char>) -> bool {
    starts_with(name, "body"@)
}

/// A value text without surrounding whitespace and without the inline
/// comment that a `#`, then a `;`, starts.
pub open spec fn value_text(v: Seq<char>) -> Seq<char> {
    let v1 = trim(v);
    let v2 = if contains(v1, '#') {
        trim(before(v1, '#'))
    } else {
        v1
    };
    if contains(v2, ';') {
        trim(before(v2, ';'))
    } else {
        v2
    }
}

/// The state of a reading: the body sections closed so far, and the body
/// section that is open, if any.
pub struct ReadState {
    pub done: Seq<SectionModel>,
    pub open: Option<SectionModel>,
}

/// The sections closed once the section that is open is closed.
pub open spec fn close(st: ReadState) -> Seq<SectionModel> {
    match st.open {
        Some(cur) => st.done.push(cur),
        None => st.done,
    }
}

/// Whether a trimmed line is skipped as blank or as a comment.
pub open spec fn is_comment(t: Seq<char>) -> bool {
    t.len() == 0 || t[0] == '#' || t[0] == ';'
}

/// Whether a trimmed line is a section header `[name]`.
pub open spec fn is_header(t: Seq<char>) -> bool {
    t.len() >= 2 && t[0] == '[' && t.last() == ']'
}

/// The effect of one line on the state of a reading.
pub open spec fn read_line(st: ReadState, line: Seq<char>) -> ReadState {
    let t = trim(line);
    if is_comment(t) {
        st
    } else if is_header(t) {
        ReadState {
            done: close(st),
            open: if is_body_name(lower_of(t.subrange(1, t.len() - 1))) {
                Some(Seq::empty())
            } else {
                None
            },
        }
    } else {
        match st.open {
            None => st,
            Some(cur) => if !contains(t, '=') {
                st
            } else {
                let eq = first_index(t, '=') as int;
                match field_named(lower_of(trim(t.take(eq)))) {
                    None => st,
                    Some(f) => ReadState {
                        done: st.done,
                        open: Some(cur.push((f, value_text(t.skip(eq + 1))))),
                    },
                }
            },
        }
    }
}

/// The state after reading `lines` in order from the empty state.
pub open spec fn read_lines(lines: Seq<Seq<char>>) -> ReadState
    decreases lines.len(),
{
    if lines.len() == 0 {
        ReadState { done: Seq::empty(), open: None }
    } else {
        read_line(read_lines(lines.drop_last()), lines.last())
    }
}

/// The body sections of a file's text, in file order.
pub open spec fn body_sections(content: Seq<char>) -> Seq<SectionModel> {
    close(read_lines(split_lines(content)))
}

/// The field that a lowercase key names, if any.
pub fn field_of_key(key: &str) -> (r: Option<Field>)
    ensures
        r == field_named(key@),
{
    let k = chars_of(key);
    if same_chars(&k, &chars_of("mass")) {
        Some(Field::Mass)
    } else if same_chars(&k, &chars_of("position_x")) {
        Some(Field::PositionX)
    } else if same_chars(&k, &chars_of("position_y")) {
        Some(Field::PositionY)
    } else if same_chars(&k, &chars_of("position_z")) {
        Some(Field::PositionZ)
    } else if same_chars(&k, &chars_of("velocity_x")) {
        Some(Field::VelocityX)
    } else if same_chars(&k, &chars_of("velocity_y")) {
        Some(Field::VelocityY)
    } else if same_chars(&k, &chars_of("velocity_z")) {
        Some(Field::VelocityZ)
    } else {
        None
    }
}

/// Whether a lowercase section name opens a body section.
pub fn is_body_section(name: &str) -> (r: bool)
    ensures
        r == is_body_name(name@),
{
    has_prefix(&chars_of(name), &chars_of("body"))
}

/// The bounds of the value text of `cs[lo..hi]`.
fn value_range(cs: &Vec<char>, lo: usize, hi: usize) -> (r: (usize, usize))
    requires
        lo <= hi <= cs.len(),
    ensures
        lo <= r.0 <= r.1 <= hi,
        cs@.subrange(r.0 as int, r.1 as int) == value_text(cs@.subrange(lo as int, hi as int)),
{
    let (a, b) = trim_range(cs, lo, hi);
    let h = find_char(cs, a, b, '#');
    let (a2, b2) = if h < b {
        assert(cs@.subrange(a as int, b as int).take(h - a) =~= cs@.subrange(a as int, h as int));
        trim_range(cs, a, h)
    } else {
        (a, b)
    };
    let s = find_char(cs, a2, b2, ';');
    if s < b2 {
        assert(cs@.subrange(a2 as int, b2 as int).take(s - a2) =~= cs@.subrange(
            a2 as int,
            s as int,
        ));
        trim_range(cs, a2, s)
    } else {
        (a2, b2)
    }
}

/// Reads the line `cs[lo..hi]` of `content` into the state `done`, `open`.
fn read_one_line(
    content: &str,
    cs: &Vec<char>,
    lo: usize,
    hi: usize,
    done: Vec<BodySection>,
    open: Option<BodySection>,
) -> (r: (Vec<BodySection>, Option<BodySection>))
    requires
        cs@ == content@,
        lo <= hi <= cs.len(),
    ensures
        ({
            let st = read_line(
                ReadState { done: sections_view(done@), open: open_view(open) },
                cs@.subrange(lo as int, hi as int),
            );
            sections_view(r.0@) == st.done && open_view(r.1) == st.open
        }),
{
    let (a, b) = trim_range(cs, lo, hi);
    let ghost t = cs@.subrange(a as int, b as int);
    if a == b || cs[a] == '#' || cs[a] == ';' {
        return (done, open);
    }
    if b - a >= 2 && cs[a] == '[' && cs[b - 1] == ']' {
        let mut done = done;
        match open {
            Some(sec) => {
                let ghost before_push = done@;
                done.push(sec);
                assert(sections_view(done@) =~= sections_view(before_push).push(sec@));
            },
            None => {},
        }
        assert(t.subrange(1, t.len() - 1) =~= cs@.subrange(a + 1, b - 1));
        let name = lowercase(content.substring_char(a + 1, b - 1));
        let opened = if is_body_section(name.as_str()) {
            let empty = BodySection { assignments: Vec::new() };
            assert(empty@ =~= Seq::empty());
            Some(empty)
        } else {
            None
        };
        return (done, opened);
    }
    match open {
        None => (done, None),
        Some(sec) => {
            let eq = find_char(cs, a, b, '=');
            if eq == b {
                return (done, Some(sec));
            }
            assert(t.take(eq - a) =~= cs@.subrange(a as int, eq as int));
            let (k0, k1) = trim_range(cs, a, eq);
            let key = lowercase(content.substring_char(k0, k1));
            match field_of_key(key.as_str()) {
                None => (done, Some(sec)),
                Some(f) => {
                    assert(t.skip(eq - a + 1) =~= cs@.subrange(eq + 1, b as int));
                    let (v0, v1) = value_range(cs, eq + 1, b);
                    let value = content.substring_char(v0, v1).to_owned();
                    let mut sec = sec;
                    let ghost before_push = sec@;
                    let item = Assignment { field: f, value };
                    sec.assignments.push(item);
                    assert(sec@ =~= before_push.push(item@));
                    (done, Some(sec))
                },
            }
        },
    }
}

/// The body sections of an initial-condition file's text, in file order,
/// each with its field assignments in file order.
pub fn parse_sections(content: &str) -> (r: Vec<BodySection>)
    ensures
        sections_view(r@) == body_sections(content@),
{
    let cs = chars_of(content);
    let n = cs.len();
    let mut done: Vec<BodySection> = Vec::new();
    let mut open: Option<BodySection> = None;
    let mut pos: usize = 0;
    let mut more = true;
    let ghost mut seen: Seq<Seq<char>> = Seq::empty();
    assert(sections_view(done@) =~= Seq::empty());
    assert(cs@.skip(0) =~= cs@);
    assert(seen + split_lines(cs@) =~= split_lines(cs@));
    while more
        invariant
            cs@ == content@,
            n == cs.len(),
            pos <= n,
            more ==> split_lines(cs@) == seen + split_lines(cs@.skip(pos as int)),
            !more ==> split_lines(cs@) == seen,
            sections_view(done@) == read_lines(seen).done,
            open_view(open) == read_lines(seen).open,
        decreases n - pos + (if more { 1int } else { 0int }),
    {
        let e = find_char(&cs, pos, n, '\n');
        let ghost line = cs@.subrange(pos as int, e as int);
        proof {
            let rest = cs@.skip(pos as int);
            assert(rest =~= cs@.subrange(pos as int, n as int));
            if e < n {
                assert(before(rest, '\n') =~= line);
                assert(rest.skip(e - pos + 1) =~= cs@.skip(e + 1));
                assert(seen + split_lines(rest) =~= seen.push(line) + split_lines(
                    cs@.skip(e + 1),
                ));
            } else {
                assert(rest =~= line);
                assert(seen + split_lines(rest) =~= seen.push(line));
            }
        }
        let (d, o) = read_one_line(content, &cs, pos, e, done, open);
        done = d;
        open = o;
        proof {
            assert(seen.push(line).drop_last() =~= seen);
            seen = seen.push(line);
        }
        if e == n {
            more = false;
        } else {
            pos = e + 1;
        }
    }
    let mut result = done;
    match open {
        Some(sec) => {
            let ghost before_push = result@;
            result.push(sec);
            assert(sections_view(result@) =~= sections_view(before_push).push(sec@));
        },
        None => {},
    }
    result
}

} // verus!
